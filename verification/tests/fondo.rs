use vitela::fondo::{sin_invocacion, NOMBRE};

#[test]
fn el_fondo_se_quita_entero_sin_mover_nada() {
    assert_eq!(NOMBRE, "VitelaFondo");
    let flujo = b"q /VitelaFondo Do Q BT (hola) Tj ET";
    let limpio = sin_invocacion(flujo).expect("había fondo");
    assert_eq!(limpio.len(), flujo.len(), "no se recorta el flujo");
    assert_eq!(&limpio[..], &b"q                 Q BT (hola) Tj ET"[..]);
    // con saltos de línea entre el nombre y el operador
    let flujo = b"/VitelaFondo\n\r Do\n/VitelaFondo  Do";
    let limpio = sin_invocacion(flujo).expect("había fondo");
    assert!(limpio.iter().all(|b| *b == b' ' || *b == b'\n'));
    assert_eq!(limpio.len(), flujo.len());
}

#[test]
fn sin_fondo_no_se_toca_nada() {
    assert_eq!(sin_invocacion(b"q /Im1 Do Q"), None);
    assert_eq!(sin_invocacion(b"/VitelaFondo gs"), None, "sin Do no es una invocación");
    assert_eq!(sin_invocacion(b""), None);
    assert_eq!(sin_invocacion(b"/VitelaFondo D"), None);
}

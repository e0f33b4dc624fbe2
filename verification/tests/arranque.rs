use vitela::arranque::{pdf_de_argv, Arranque, EVENTO_ABRIR, EVENTO_CERRAR};

#[test]
fn el_cierre_se_frena_hasta_que_la_ui_lo_confirma() {
    let mut a = Arranque::nuevo();
    assert!(a.frenar_cierre(), "el primer intento de cierre se para para preguntar por los cambios");
    a.confirma_cierre();
    assert!(!a.frenar_cierre(), "una vez que la UI ha confirmado, el cierre sigue adelante");
    assert_eq!(EVENTO_CERRAR, "cerrar-solicitado");
}

/// Arranque en frío: el PDF del doble clic llega antes de que la UI
/// escuche, así que espera guardado y se lo lleva `ui_lista`.
#[test]
fn el_pdf_pendiente_se_lo_lleva_la_ui_al_montarse() {
    let mut a = Arranque::nuevo();
    assert_eq!(a.pide_abrir("/tmp/doble-clic.pdf".into()), None, "todavía no escucha: se guarda");
    assert_eq!(a.ui_lista().as_deref(), Some("/tmp/doble-clic.pdf"));
    // solo una vez: el segundo montaje no reabre nada
    assert_eq!(a.ui_lista(), None);
    assert!(a.ui_lista);
    // con la UI escuchando, se emite directamente
    assert_eq!(a.pide_abrir("/tmp/otro.pdf".into()).as_deref(), Some("/tmp/otro.pdf"));
    assert_eq!(a.pendiente, None);
    assert_eq!(EVENTO_ABRIR, "abrir-fichero");
}

fn args(v: &[&str]) -> Vec<String> {
    v.iter().map(|s| s.to_string()).collect()
}

#[test]
fn pdf_de_argv_ignora_el_binario_y_las_opciones() {
    let ruta = "/tmp/editor_pdf_test_argv.pdf";
    assert_eq!(
        pdf_de_argv(&args(&["/Applications/Vitela.app/…/Vitela", ruta]), &vec![false, true]),
        Some(ruta.to_string())
    );
    // el argv[0] nunca cuenta, aunque acabe en .pdf
    assert_eq!(pdf_de_argv(&args(&[ruta]), &vec![true]), None);
    // ni las opciones ni los ficheros que no están
    assert_eq!(
        pdf_de_argv(&args(&["Vitela", "--flag", "/tmp/no-existe.pdf"]), &vec![false, false, false]),
        None
    );
    assert_eq!(pdf_de_argv(&args(&["Vitela"]), &vec![false]), None);
    // sin mirar mayúsculas, y el primero que valga
    assert_eq!(
        pdf_de_argv(&args(&["Vitela", "-x.pdf", "/tmp/A.PDF", "/tmp/b.pdf"]), &vec![false, true, true, true]),
        Some("/tmp/A.PDF".to_string())
    );
}

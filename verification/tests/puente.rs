use vitela::puente::{lee_u16, puerto_de, ruta_de, ruta_desconocida, ColaDeDialogos, Ruta, PUERTO_POR_DEFECTO};

#[test]
fn cola_de_dialogos_fifo_y_vacia() {
    let mut cola = ColaDeDialogos::nueva();
    assert_eq!(cola.encola("\"/tmp/a.pdf\"".to_string()), 1);
    assert_eq!(cola.encola("null".to_string()), 2);
    assert_eq!(cola.siguiente().as_deref(), Some("\"/tmp/a.pdf\""));
    assert_eq!(cola.siguiente().as_deref(), Some("null"));
    assert_eq!(cola.siguiente(), None);
}

#[test]
fn el_puerto_sale_de_la_variable_o_es_el_de_siempre() {
    assert_eq!(PUERTO_POR_DEFECTO, 1422);
    assert_eq!(puerto_de(None), 1422);
    assert_eq!(puerto_de(Some("1500")), 1500);
    assert_eq!(puerto_de(Some("+80")), 80);
    assert_eq!(puerto_de(Some("65536")), 1422, "no cabe en 16 bits");
    assert_eq!(puerto_de(Some("-1")), 1422);
    assert_eq!(puerto_de(Some("")), 1422);
    assert_eq!(puerto_de(Some("12a")), 1422);
    for s in ["0", "007", "65535", "+", "++1", " 1", "99999999999"] {
        assert_eq!(lee_u16(s), s.parse::<u16>().ok(), "{s:?}");
    }
}

#[test]
fn cada_ruta_del_puente() {
    assert!(matches!(ruta_de("/salud"), Ruta::Salud));
    assert!(matches!(ruta_de("/qa/dialogo"), Ruta::Dialogo));
    assert!(matches!(ruta_de("/qa/dialogo/siguiente"), Ruta::SiguienteDialogo));
    assert!(matches!(ruta_de("/qa/fixture"), Ruta::Fixture));
    match ruta_de("/invoke/open_pdf") {
        Ruta::Invocar(c) => assert_eq!(c, "open_pdf"),
        _ => panic!("tenía que ser un comando"),
    }
    assert!(matches!(ruta_de("/otra"), Ruta::Desconocida));
    assert_eq!(ruta_desconocida("/otra"), "Ruta desconocida: /otra");
}

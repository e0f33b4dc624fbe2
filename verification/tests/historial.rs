use vitela::historial::{con, estado, limpia, mutacion, nombre_base, retira_paso, ruta_instantanea, Historial, Historiales, HistoryState, MAX_PASOS};

#[test]
fn deshacer_y_rehacer_cambian_los_pasos_de_pila() {
    let mut h: Historial<u8> = Historial::nuevo();
    let (n, descartados) = h.empuja(None);
    assert_eq!(n, 0);
    assert!(descartados.is_empty());
    assert_eq!(estado(&h, 2), HistoryState { undo: 1, redo: 0, page_count: 2 });
    let (origen, nueva) = h.intercambia(true, None).expect("deshacer");
    assert_eq!(origen.instantanea, 0);
    assert_eq!(nueva, 1);
    assert_eq!(estado(&h, 3), HistoryState { undo: 0, redo: 1, page_count: 3 });
    let (origen, _) = h.intercambia(false, None).expect("rehacer");
    assert_eq!(origen.instantanea, 1);
    assert_eq!(estado(&h, 2), HistoryState { undo: 1, redo: 0, page_count: 2 });
    h.intercambia(true, None).expect("deshacer");
    assert_eq!(h.intercambia(true, None).err().as_deref(), Some("Nada que deshacer"), "sin pasos debe fallar");
    h.intercambia(false, None).expect("rehacer");
    assert_eq!(h.intercambia(false, None).err().as_deref(), Some("Nada que rehacer"));
}

#[test]
fn una_mutacion_nueva_descarta_la_rama_de_rehacer() {
    let mut h: Historial<u8> = Historial::nuevo();
    h.empuja(None);
    h.intercambia(true, None).expect("deshacer");
    let (_, descartados) = h.empuja(None);
    assert_eq!(descartados.len(), 1, "sus ficheros se borran");
    let e = estado(&h, 1);
    assert_eq!((e.undo, e.redo), (1, 0));
}

#[test]
fn tope_de_pasos_y_mutacion_fallida() {
    let mut h: Historial<u8> = Historial::nuevo();
    let mut borradas = 0usize;
    for _ in 0..(MAX_PASOS + 5) {
        h.empuja(None);
        let (r, quitados) = mutacion(&mut h, Ok::<(), String>(()));
        assert!(r.is_ok());
        borradas += quitados.len();
    }
    assert_eq!(estado(&h, 1).undo as usize, MAX_PASOS);
    assert_eq!(borradas, 5, "las instantáneas sobrantes se borran");
    // una mutación que falla no deja paso ni fichero
    h.empuja(None);
    let (r, quitados) = mutacion(&mut h, Err::<(), String>("ObjectIndexOutOfBounds".into()));
    assert_eq!(r.unwrap_err(), "Ese elemento ya no está en la página; vuelve a abrir el documento");
    assert_eq!(quitados.len(), 1);
    assert_eq!(estado(&h, 1).undo as usize, MAX_PASOS);
    for _ in 0..MAX_PASOS {
        h.intercambia(true, None).expect("deshacer");
    }
    assert!(h.intercambia(true, None).is_err());
}

#[test]
fn agrupar_pasos() {
    let mut h: Historial<u8> = Historial::nuevo();
    for _ in 0..3 {
        h.empuja(None);
    }
    let quitados = h.agrupa(3);
    assert_eq!(quitados.len(), 2);
    let e = estado(&h, 1);
    assert_eq!((e.undo, e.redo), (1, 0));
    assert_eq!(h.deshacer[0].instantanea, 0, "queda el estado de antes de los tres");
    assert!(h.agrupa(5).is_empty());
}

#[test]
fn una_mutacion_que_no_cambia_nada_no_deja_paso() {
    let mut h: Historial<u8> = Historial::nuevo();
    h.empuja(Some(7));
    let p = retira_paso(&mut h).expect("había paso");
    assert_eq!(p.proteccion, Some(7));
    assert_eq!(estado(&h, 1).undo, 0);
    assert!(retira_paso(&mut h).is_none());
}

#[test]
fn las_instantaneas_se_nombran_por_la_copia() {
    assert_eq!(nombre_base("/tmp/vitela-a-1.pdf"), "vitela-a-1.pdf");
    assert_eq!(nombre_base("/"), "documento");
    assert_eq!(ruta_instantanea("/tmp/vitela-historial", "/tmp/vitela-a-1.pdf", 12), "/tmp/vitela-historial/vitela-a-1.pdf.snap12");
    assert_eq!(ruta_instantanea("/h/", "/x/b.pdf", 0), "/h/b.pdf.snap0");
}

#[test]
fn dos_documentos_abiertos_a_la_vez_no_se_pisan() {
    let mut mapa: Historiales<u8> = Historiales::nuevos();
    let a = con(&mut mapa, "/tmp/a.pdf");
    mapa.entradas[a].1.empuja(None);
    let b = con(&mut mapa, "/tmp/b.pdf");
    assert_ne!(a, b);
    assert_eq!(mapa.entradas[b].1.deshacer.len(), 0, "el otro no tiene pasos");
    assert_eq!(con(&mut mapa, "/tmp/a.pdf"), a);
    assert_eq!(mapa.entradas[a].1.deshacer.len(), 1);
    let h = limpia(&mut mapa, "/tmp/a.pdf").expect("tenía historial");
    assert_eq!(h.deshacer.len(), 1);
    assert!(mapa.busca("/tmp/a.pdf").is_none());
    assert!(mapa.busca("/tmp/b.pdf").is_some());
    assert!(limpia(&mut mapa, "/tmp/a.pdf").is_none());
}

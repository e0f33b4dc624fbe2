use vitela::recientes::{detalla, detalla_una, quita, toca, toca_con, Entrada, MAXIMO};

fn entrada(p: &str) -> Entrada {
    Entrada { path: p.to_string(), opened_at: "2026-01-01T00:00:00+00:00".to_string() }
}

#[test]
fn ordena_por_ultimo_abierto_y_corta_en_ocho() {
    let mut lista: Vec<Entrada> = Vec::new();
    for i in 0..10 {
        lista = toca(lista, &format!("/tmp/doc{i}.pdf")).expect("tocar");
    }
    assert_eq!(lista.len(), MAXIMO, "el tope son ocho");
    assert_eq!(lista[0].path, "/tmp/doc9.pdf", "el último abierto va primero");
    assert!(!lista.iter().any(|e| e.path == "/tmp/doc0.pdf"), "los más viejos se caen");

    // volver a abrir uno ya listado lo sube sin duplicarlo
    let lista = toca(lista, "/tmp/doc5.pdf").expect("tocar de nuevo");
    assert_eq!(lista[0].path, "/tmp/doc5.pdf");
    assert_eq!(lista.iter().filter(|e| e.path == "/tmp/doc5.pdf").count(), 1, "sin duplicados");
    assert_eq!(lista.len(), MAXIMO);
}

#[test]
fn marca_los_que_ya_no_existen_y_deja_quitarlos() {
    let vivo = "/tmp/editor_pdf_test_reciente_vivo.pdf";
    let lista = toca(Vec::new(), "/tmp/no-existe-jamas.pdf").expect("tocar");
    let lista = toca(lista, vivo).expect("tocar");

    let vista = detalla(&lista, &vec![true, false]);
    assert_eq!(vista[0].path, vivo);
    assert!(vista[0].exists, "el que está debe salir como existente");
    assert_eq!(vista[0].name, "editor_pdf_test_reciente_vivo.pdf");
    assert_eq!(vista[0].dir, "/tmp", "la carpeta va aparte del nombre");
    assert!(!vista[0].opened_at.is_empty());
    assert!(!vista[1].exists, "el que falta se marca, no da error");

    let lista = quita(lista, "/tmp/no-existe-jamas.pdf");
    let vista = detalla(&lista, &vec![true]);
    assert_eq!(vista.len(), 1);
    assert_eq!(vista[0].path, vivo);
}

#[test]
fn una_ruta_vacia_no_entra_y_los_espacios_sobran() {
    assert_eq!(toca(Vec::new(), "   ").err().as_deref(), Some("Ruta vacía"));
    let lista = toca_con(vec![entrada("/tmp/a.pdf")], "  /tmp/a.pdf\n", "ahora".into()).expect("tocar");
    assert_eq!(lista.len(), 1);
    assert_eq!(lista[0].path, "/tmp/a.pdf");
    assert_eq!(lista[0].opened_at, "ahora");
}

#[test]
fn quitar_deja_las_demas_en_su_orden() {
    let lista = vec![entrada("/a.pdf"), entrada("/b.pdf"), entrada("/c.pdf")];
    let lista = quita(lista, "/b.pdf");
    let rutas: Vec<&str> = lista.iter().map(|e| e.path.as_str()).collect();
    assert_eq!(rutas, vec!["/a.pdf", "/c.pdf"]);
}

#[test]
fn una_ruta_sin_nombre_se_ve_entera() {
    let r = detalla_una(&entrada("/"), false);
    assert_eq!(r.name, "/");
    assert_eq!(r.dir, "");
}

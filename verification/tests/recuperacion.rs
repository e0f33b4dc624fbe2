use vitela::recuperacion::{apunta_con, apunta_en, borra_en, copias_apuntadas, nombra, recupera_en, Sesion};

fn apunta(l: Vec<Sesion>, w: &str, o: &str, m: bool) -> Vec<Sesion> {
    apunta_en(l, w, o, m).expect("el reloj da hora")
}

/// Con pestañas hay varios documentos abiertos y el autoguardado va del que
/// está delante: apuntar uno **no puede** borrar el apunte de otro.
#[test]
fn apuntar_un_documento_no_borra_el_apunte_de_otro() {
    let l = apunta(Vec::new(), "/tmp/vitela-a.pdf", "/tmp/a.pdf", true);
    let l = apunta(l, "/tmp/vitela-b.pdf", "/tmp/b.pdf", true);
    let l = apunta(l, "/tmp/vitela-c.pdf", "/tmp/c.pdf", false);

    let todos = nombra(l.clone());
    assert_eq!(todos.len(), 3, "tres documentos, tres apuntes");
    assert_eq!(todos.iter().map(|s| s.name.as_str()).collect::<Vec<_>>(), vec!["a.pdf", "b.pdf", "c.pdf"]);

    // volver a la primera pestaña actualiza **su** entrada, no añade otra
    let l = apunta(l, "/tmp/vitela-a.pdf", "/tmp/a.pdf", false);
    assert_eq!(l.len(), 3, "la entrada se actualiza, no se duplica");
    assert!(!l[0].modificado, "y es la suya la que cambia");
    assert!(l[1].modificado, "la de al lado se queda como estaba");

    // cerrar una pestaña se lleva la suya y solo la suya
    let quedan = borra_en(l, Some("/tmp/vitela-b.pdf"));
    assert_eq!(quedan.len(), 2);
    assert!(!quedan.iter().any(|s| s.work_path == "/tmp/vitela-b.pdf"));

    // y cerrar la app entera los quita todos
    assert!(borra_en(quedan, None).is_empty(), "sin apuntes, el fichero se va");
}

/// «Descartar» y cerrar bien borran el apunte; el de otro documento no se
/// toca.
#[test]
fn borrar_la_sesion_solo_borra_la_suya() {
    let l = apunta(Vec::new(), "/tmp/vitela-a.pdf", "/tmp/a.pdf", true);
    let l = borra_en(l, Some("/tmp/vitela-otro.pdf"));
    assert_eq!(l.len(), 1, "el apunte de otro documento no se toca");
    let l = borra_en(l, Some("/tmp/vitela-a.pdf"));
    assert!(l.is_empty(), "el suyo sí");

    // sin ruta, se borran los que haya (cerrar la app)
    let l = apunta(l, "/tmp/vitela-a.pdf", "/tmp/a.pdf", true);
    let l = borra_en(l, None);
    assert!(l.is_empty());
    // y borrar dos veces no es un error
    assert!(borra_en(l, None).is_empty());
    // una ruta vacía es lo mismo que ninguna
    let l = apunta(Vec::new(), "/tmp/vitela-a.pdf", "/tmp/a.pdf", true);
    assert!(borra_en(l, Some("")).is_empty());
}

/// Si la copia de trabajo ya no está, no se ofrece recuperar algo que no
/// existe, y el apunte inútil se retira.
#[test]
fn no_se_ofrece_recuperar_una_copia_que_ya_no_esta() {
    let l = apunta(Vec::new(), "/tmp/vitela-que-ya-no-esta.pdf", "/tmp/x.pdf", true);
    let (vivas, retira) = recupera_en(l, &vec![false]);
    assert!(vivas.is_empty());
    assert!(retira, "el apunte inútil se retira solo");
}

#[test]
fn se_ofrecen_los_que_tienen_cambios_y_copia_viva() {
    let l = apunta(Vec::new(), "/tmp/vitela-viva.pdf", "/tmp/contrato.pdf", true);
    let l = apunta(l, "/tmp/vitela-fantasma.pdf", "/tmp/x.pdf", true);
    let l = apunta(l, "/tmp/vitela-viva-2.pdf", "/tmp/y.pdf", false);
    let (vivas, retira) = recupera_en(l, &vec![true, false, true]);
    assert_eq!(vivas.len(), 1, "solo uno se puede recuperar");
    assert_eq!(vivas[0].work_path, "/tmp/vitela-viva.pdf");
    assert!(retira);
    let (otra_vez, retira) = recupera_en(vivas, &vec![true]);
    assert_eq!(otra_vez.len(), 1);
    assert!(!retira, "lo que queda ya sirve");
}

#[test]
fn tras_un_cierre_bruto_se_ofrece_recuperar_y_tras_uno_limpio_no() {
    let w = "/tmp/vitela-test-sesion-copia.pdf";
    let l = apunta(Vec::new(), w, "/Users/jorge/facturas/factura.pdf", true);
    let (ofrecidas, _) = recupera_en(nombra(l.clone()), &vec![true]);
    assert_eq!(ofrecidas.len(), 1, "hay algo que recuperar");
    let s = &ofrecidas[0];
    assert_eq!(s.work_path, w);
    assert_eq!(s.original_path, "/Users/jorge/facturas/factura.pdf");
    assert!(s.modificado);
    assert_eq!(s.name, "factura.pdf", "la banda dice el nombre del original");
    assert!(!s.cuando.is_empty());
    // guardar deja el documento sin cambios pendientes: nada que ofrecer
    let l = apunta(l, w, "/Users/jorge/facturas/factura.pdf", false);
    assert!(recupera_en(l.clone(), &vec![true]).0.is_empty(), "sin cambios no se ofrece nada");
    // un documento nuevo se nombra por su copia
    let l = apunta(l, w, "", true);
    assert_eq!(nombra(l)[0].name, "vitela-test-sesion-copia.pdf");
}

#[test]
fn las_copias_apuntadas_son_todas() {
    let l = apunta_con(Vec::new(), "/tmp/vitela-1.pdf", "/a.pdf", true, "t".into());
    let l = apunta_con(l, "/tmp/vitela-2.pdf", "/b.pdf", false, "t".into());
    assert_eq!(copias_apuntadas(&l), vec!["/tmp/vitela-1.pdf".to_string(), "/tmp/vitela-2.pdf".to_string()]);
    assert_eq!(l[1].cuando, "t");
    let sin_nada = Sesion { original_path: String::new(), work_path: "/".into(), modificado: false, cuando: String::new(), name: String::new() };
    assert_eq!(nombra(vec![sin_nada])[0].name, "documento");
}

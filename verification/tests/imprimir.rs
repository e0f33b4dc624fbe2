use vitela::imprimir::{caras_de_folleto, hojas_de_papel, modo_de, orden_de_folleto, paginas_elegidas, rejilla, reparto_nup, Modo};

/// **El orden del folleto**: con ocho páginas, las caras salen 8-1, 2-7,
/// 6-3, 4-5, y al grapar por el centro el libro se lee del derecho.
#[test]
fn el_folleto_ordena_las_paginas_para_grapar_por_el_centro() {
    let caras: Vec<(Option<usize>, Option<usize>)> = orden_de_folleto(8);
    assert_eq!(
        caras,
        vec![
            (Some(7), Some(0)),
            (Some(1), Some(6)),
            (Some(5), Some(2)),
            (Some(3), Some(4)),
        ]
    );
    // seis páginas se rellenan hasta ocho con dos huecos en blanco
    let caras = orden_de_folleto(6);
    assert_eq!(caras.len(), 4);
    assert_eq!(caras[0], (None, Some(0)), "la contraportada va en blanco");
    assert!(caras.iter().flat_map(|(a, b)| [*a, *b]).flatten().count() == 6);
}

#[test]
fn cada_pagina_del_folleto_sale_una_vez() {
    for n in 1..=17usize {
        let caras = orden_de_folleto(n);
        let mut vistas: Vec<usize> = caras.iter().flat_map(|(a, b)| [*a, *b]).flatten().collect();
        vistas.sort();
        assert_eq!(vistas, (0..n).collect::<Vec<_>>(), "{n} páginas");
        assert_eq!(caras.len() % 2, 0);
    }
}

#[test]
fn la_rejilla_de_cada_cuantas_por_hoja() {
    assert_eq!(rejilla(2), Ok((1, 2)));
    assert_eq!(rejilla(4), Ok((2, 2)));
    assert_eq!(rejilla(6), Ok((2, 3)));
    assert_eq!(rejilla(9), Ok((3, 3)));
    assert_eq!(rejilla(16), Ok((4, 4)));
    assert!(rejilla(5).is_err());
}

#[test]
fn la_composicion_se_elige_por_su_nombre() {
    assert!(matches!(modo_de("nup"), Ok(Modo::Nup)));
    assert!(matches!(modo_de("folleto"), Ok(Modo::Folleto)));
    assert!(matches!(modo_de("poster"), Ok(Modo::Poster)));
    let e = modo_de("espiral").err().expect("desconocida");
    assert_eq!(e, "Composición desconocida: espiral");
}

#[test]
fn diez_paginas_de_cuatro_en_cuatro_son_tres_hojas() {
    let r = reparto_nup(10, Some(4), false).expect("4-up");
    assert_eq!(r.len(), 3, "10 páginas de cuatro en cuatro son tres hojas");
    assert_eq!(r.iter().map(|h| h.len()).sum::<usize>(), 10);
    assert_eq!(r[2].len(), 2, "la última con dos huecos");
    // por filas: la segunda página va a la derecha de la primera
    assert_eq!((r[0][1].pagina, r[0][1].col, r[0][1].fila), (1, 1, 0));
    let v = reparto_nup(4, Some(4), true).expect("vertical");
    assert_eq!((v[0][1].col, v[0][1].fila), (0, 1));
    assert!(reparto_nup(4, Some(5), false).is_err());
}

#[test]
fn sin_paginas_no_hay_composicion() {
    assert_eq!(
        paginas_elegidas(10, &Some(vec![20, 30])).unwrap_err(),
        "No hay ninguna página que componer"
    );
    assert!(paginas_elegidas(0, &None).is_err());
    assert_eq!(paginas_elegidas(5, &Some(vec![3, 1, 9])).unwrap(), vec![3, 1]);
    assert_eq!(paginas_elegidas(3, &None).unwrap(), vec![0, 1, 2]);
}

#[test]
fn el_folleto_a_doble_cara_gasta_la_mitad_de_hojas() {
    assert_eq!(hojas_de_papel(Modo::Folleto, 4), 2);
    assert_eq!(hojas_de_papel(Modo::Nup, 3), 3);
    let todas = caras_de_folleto(8, None, None).expect("folleto");
    assert_eq!(todas.len(), 4);
    let anverso = caras_de_folleto(8, None, Some("anverso")).expect("anverso");
    assert_eq!(anverso.len(), 2);
}

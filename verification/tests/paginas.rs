use vitela::paginas::{cortes_de_division, cuartos_de_vuelta, destino_de_union, giro_nuevo, hay_paginas, mueve, nombre_de_pagina,
    nombre_de_parte, ordenados_sin_repetir, paginas_pedidas, plan_de_borrado, rango_de_paginas, rango_de_trozo, rango_del_otro,
    rango_entero, revisa_extraccion, revisa_giro, texto_bates, trozos, un_cuarto_mas, Lote};

#[test]
fn los_indices_se_ordenan_sin_repetir() {
    assert_eq!(ordenados_sin_repetir(&vec![5, 1, 5, 3, 1]), vec![1, 3, 5]);
    assert_eq!(ordenados_sin_repetir(&vec![]), Vec::<u16>::new());
}

#[test]
fn extraer_y_eliminar_todas_falla_antes_de_escribir_nada() {
    assert!(revisa_extraccion(3, &vec![0, 1, 2], false).is_ok());
    let e = revisa_extraccion(3, &vec![2, 0, 1, 1], true).unwrap_err();
    assert!(e.starts_with("No se pueden extraer todas las páginas y borrarlas del original"));
    assert!(revisa_extraccion(3, &vec![0, 1], true).is_ok());
    assert_eq!(revisa_extraccion(3, &vec![7, 4, 1], false).unwrap_err(), "La página 5 ya no está en el documento");
}

#[test]
fn borrar_en_lote_va_de_mayor_a_menor() {
    assert_eq!(plan_de_borrado(5, &vec![1, 3, 1, 0]).unwrap(), vec![3, 1, 0]);
    assert_eq!(plan_de_borrado(2, &vec![0, 1]).unwrap_err(), "Un documento no puede quedarse sin páginas");
    assert_eq!(plan_de_borrado(2, &vec![9]).unwrap_err(), "La página 10 ya no está en el documento");
    assert_eq!(hay_paginas(&vec![], Lote::Eliminar).unwrap_err(), "No hay páginas que eliminar");
    assert_eq!(hay_paginas(&vec![], Lote::Girar).unwrap_err(), "No hay páginas que girar");
    assert_eq!(hay_paginas(&vec![], Lote::Extraer).unwrap_err(), "No hay páginas que extraer");
    assert!(hay_paginas(&vec![1], Lote::Extraer).is_ok());
}

#[test]
fn girar_en_los_dos_sentidos() {
    assert_eq!(cuartos_de_vuelta(1), 1);
    assert_eq!(cuartos_de_vuelta(-1), 3, "antihorario es tres cuartos en el otro sentido");
    assert_eq!(cuartos_de_vuelta(4), 0, "vuelta entera: nada que hacer");
    assert_eq!(cuartos_de_vuelta(-128), 0);
    assert_eq!(giro_nuevo(3, 2), 1);
    assert_eq!(un_cuarto_mas(3), 0);
    for actual in 0..4u8 {
        for q in -3..=3i8 {
            assert_eq!(giro_nuevo(giro_nuevo(actual, cuartos_de_vuelta(q)), cuartos_de_vuelta(-q)), actual);
        }
    }
    assert_eq!(revisa_giro(2, &vec![0, 5, 9]).unwrap_err(), "La página 6 ya no está en el documento");
    assert!(revisa_giro(2, &vec![1, 0]).is_ok());
}

#[test]
fn mover_una_pagina_la_deja_donde_se_suelta() {
    let orden = vec!['a', 'b', 'c', 'd'];
    assert_eq!(mueve(orden.clone(), 0, 2).unwrap(), vec!['b', 'c', 'a', 'd']);
    assert_eq!(mueve(orden.clone(), 3, 0).unwrap(), vec!['d', 'a', 'b', 'c']);
    assert_eq!(mueve(orden.clone(), 1, 1).unwrap(), orden);
    assert_eq!(mueve(orden.clone(), 9, 9).unwrap(), orden, "a su sitio no se comprueba nada");
    assert_eq!(mueve(orden.clone(), 0, 4).unwrap_err(), "Índice de página fuera de rango");
    let ida = mueve(orden.clone(), 0, 3).unwrap();
    assert_eq!(mueve(ida, 3, 0).unwrap(), orden, "y volver la deja como estaba");
}

#[test]
fn los_rangos_que_entiende_el_motor() {
    assert_eq!(rango_de_paginas(&vec![0, 2, 9]), "1,3,10");
    assert_eq!(rango_de_paginas(&vec![]), "");
    assert_eq!(rango_entero(12), "1-12");
    assert_eq!(rango_de_trozo(3, 7), "4-7");
    assert_eq!(nombre_de_pagina(0), "pagina-1.pdf");
    assert_eq!(nombre_de_parte(1), "parte-2.pdf");
}

#[test]
fn el_numero_bates_es_correlativo_y_lleva_sus_digitos() {
    assert_eq!(texto_bates("ABC", "", 6, 1, 0), "ABC000001");
    assert_eq!(texto_bates("ABC", "", 6, 1, 2), "ABC000003");
    assert_eq!(texto_bates("", "-X", 2, 0, 0), "01-X", "se empieza como poco en 1");
    assert_eq!(texto_bates("P", "", 0, 1234, 0), "P1234", "al menos una cifra, sin cortar el número");
    assert_eq!(texto_bates("", "", 40, 7, 0), "000000000000007", "quince cifras como mucho");
}

#[test]
fn las_paginas_de_un_marginal() {
    assert_eq!(paginas_pedidas(3, &None), vec![0, 1, 2]);
    assert_eq!(paginas_pedidas(3, &Some(vec![2, 9, 0, 2])), vec![0, 2], "las de fuera se ignoran");
    assert!(paginas_pedidas(3, &Some(vec![5])).is_empty());
}

#[test]
fn dividir_cada_n_paginas_y_por_marcadores() {
    let c = cortes_de_division(10, "cada", Some(4), &vec![]).unwrap();
    assert_eq!(c, vec![0, 4, 8]);
    assert_eq!(trozos(&c, 10), vec![(0, 4), (4, 8), (8, 10)]);
    assert_eq!(cortes_de_division(3, "cada", Some(0), &vec![]).unwrap(), vec![0, 1, 2]);
    let m = cortes_de_division(10, "marcadores", None, &vec![6, 3, 6]).unwrap();
    assert_eq!(m, vec![0, 3, 6], "lo de antes del primer marcador es el primer trozo");
    assert_eq!(trozos(&m, 10), vec![(0, 3), (3, 6), (6, 10)]);
    assert_eq!(trozos(&vec![0, 0, 5], 5), vec![(0, 5)], "sin trozos vacíos");
    assert_eq!(
        cortes_de_division(10, "marcadores", None, &vec![]).unwrap_err(),
        "El documento no tiene marcadores de primer nivel por los que dividir"
    );
    assert_eq!(cortes_de_division(10, "espiral", None, &vec![]).unwrap_err(), "Modo de división desconocido");
    assert_eq!(cortes_de_division(0, "cada", None, &vec![]).unwrap_err(), "El documento no tiene páginas");
}

#[test]
fn reemplazar_y_combinar() {
    assert_eq!(rango_del_otro(5, &None).unwrap(), "1-5");
    assert_eq!(rango_del_otro(5, &Some(vec![])).unwrap(), "1-5");
    assert_eq!(rango_del_otro(5, &Some(vec![4, 0])).unwrap(), "5,1");
    assert_eq!(rango_del_otro(5, &Some(vec![1, 7, 9])).unwrap_err(), "El otro documento no tiene la página 8");
    assert_eq!(destino_de_union(None, 6), 6);
    assert_eq!(destino_de_union(Some(2), 6), 2);
    assert_eq!(destino_de_union(Some(60), 6), 6);
}

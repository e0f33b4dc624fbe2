use vitela::arbol::{alcanzables, cadena_de_padres, campos_colgados, es_firma, hereda_de_arriba, heredado_ft, nodos_intermedios};

fn ordenado(mut v: Vec<(u32, u16)>) -> Vec<(u32, u16)> {
    v.sort();
    v
}

#[test]
fn los_campos_colgados_con_sus_descendientes() {
    // 1 → 2, 3; 3 → 4; 5 suelto
    let g = vec![((1, 0), vec![(2, 0), (3, 0)]), ((3, 0), vec![(4, 0)]), ((5, 0), vec![(6, 0)])];
    let r = campos_colgados(&g, &vec![(1, 0)]);
    assert_eq!(ordenado(r), vec![(1, 0), (2, 0), (3, 0), (4, 0)]);
    assert!(campos_colgados(&g, &vec![]).is_empty());
}

#[test]
fn un_kids_que_vuelve_sobre_sus_pasos_no_cuelga_nada() {
    // 1 → 2 → 3 → 1: un ciclo
    let g = vec![((1, 0), vec![(2, 0)]), ((2, 0), vec![(3, 0)]), ((3, 0), vec![(1, 0), (3, 0)])];
    let r = alcanzables(&g, &vec![(2, 0), (2, 0)]);
    assert_eq!(ordenado(r), vec![(1, 0), (2, 0), (3, 0)], "cada uno una vez");
}

#[test]
fn los_nodos_intermedios_del_arbol_de_paginas() {
    // raíz 1 con dos nodos /Pages (2 y 3) y páginas 10, 11, 12 colgando;
    // el 3 vuelve a apuntar a la raíz
    let g = vec![
        ((1, 0), vec![(2, 0), (3, 0)]),
        ((2, 0), vec![(10, 0), (11, 0)]),
        ((3, 0), vec![(12, 0), (1, 0)]),
    ];
    assert_eq!(ordenado(nodos_intermedios(&g, (1, 0))), vec![(2, 0), (3, 0)]);
    // un árbol ya plano no tiene nodos intermedios
    let plano = vec![((1, 0), vec![(10, 0), (11, 0)])];
    assert!(nodos_intermedios(&plano, (1, 0)).is_empty());
}

#[test]
fn la_cadena_de_padres_corta_los_ciclos() {
    // 5 → 4 → 3 → 4 (ciclo)
    let g = vec![((5, 0), Some((4, 0)), ()), ((4, 0), Some((3, 0)), ()), ((3, 0), Some((4, 0)), ())];
    assert_eq!(cadena_de_padres(&g, (5, 0)), vec![(4, 0), (3, 0)]);
    // un padre que se apunta a sí mismo
    let g = vec![((1, 0), Some((1, 0)), ())];
    assert!(cadena_de_padres(&g, (1, 0)).is_empty());
    // la cadena se acaba donde se acaba la ficha
    let g = vec![((1, 0), Some((2, 0)), ()), ((2, 0), Some((9, 0)), ())];
    assert_eq!(cadena_de_padres(&g, (1, 0)), vec![(2, 0), (9, 0)]);
    assert!(cadena_de_padres(&g, (7, 0)).is_empty());
}

#[test]
fn una_pagina_hereda_del_primer_ancestro_que_tiene_la_clave() {
    // página 10 → nodo 2 (sin la clave) → raíz 1 (con ella)
    let g = vec![((10, 0), Some((2, 0)), false), ((2, 0), Some((1, 0)), false), ((1, 0), None, true)];
    assert_eq!(hereda_de_arriba(&g, (10, 0)), Some((1, 0)));
    assert_eq!(hereda_de_arriba(&g, (1, 0)), None, "la propia página no cuenta");
    // un ciclo sin la clave no cuelga nada
    let ciclo = vec![((10, 0), Some((2, 0)), false), ((2, 0), Some((10, 0)), false)];
    assert_eq!(hereda_de_arriba(&ciclo, (10, 0)), None);
}

#[test]
fn el_tipo_de_campo_se_hereda_del_padre() {
    let g = vec![
        ((7, 0), Some((6, 0)), None),
        ((6, 0), None, Some("Sig".to_string())),
        ((8, 0), Some((9, 0)), None),
        ((9, 0), None, Some("Btn".to_string())),
        ((3, 0), Some((3, 0)), None),
    ];
    assert_eq!(heredado_ft(&g, (7, 0)).as_deref(), Some("Sig"));
    assert!(es_firma(&g, (7, 0)));
    assert!(!es_firma(&g, (8, 0)));
    assert_eq!(heredado_ft(&g, (3, 0)), None, "un ciclo sin /FT no cuelga nada");
    assert_eq!(heredado_ft(&g, (42, 0)), None);
}

use vitela::campos::{widgets_huerfanos, AnotacionDePagina, agrupa_por_nombre, nombre_completo, nombre_de_campo, nombre_de_nivel, normaliza_uri, plan_de_reposicion,
    primer_nombre_libre, sin_tilde, unico, valor_para_xfdf};

#[test]
fn solo_enlaces_web_y_de_correo() {
    assert_eq!(normaliza_uri("  ejemplo.com ").unwrap(), "https://ejemplo.com");
    assert_eq!(normaliza_uri("HTTP://x.es").unwrap(), "HTTP://x.es");
    assert_eq!(normaliza_uri("mailto:ana@x.es").unwrap(), "mailto:ana@x.es");
    assert_eq!(
        normaliza_uri("javascript:alert(1)").unwrap_err(),
        "Solo se admiten enlaces http, https o mailto (no «javascript»)"
    );
    assert_eq!(normaliza_uri("FTP://x").unwrap_err(), "Solo se admiten enlaces http, https o mailto (no «ftp»)");
}

#[test]
fn el_nombre_del_campo_sale_del_rotulo() {
    assert_eq!(nombre_de_campo("Nombre y apellidos:"), "nombre_y_apellidos");
    assert_eq!(nombre_de_campo("  Teléfono móvil — "), "telefono_movil");
    assert_eq!(nombre_de_campo("Año / Mes..."), "ano_mes");
    assert_eq!(nombre_de_campo("::"), "campo");
    assert_eq!(nombre_de_campo(&"x".repeat(60)).len(), 40);
    assert_eq!(sin_tilde('ñ'), 'n');
    assert_eq!(sin_tilde('Ü'), 'Ü');
}

#[test]
fn casilla_marcable_y_nombres_unicos() {
    let mut usados: Vec<String> = Vec::new();
    assert_eq!(unico("nombre", &mut usados), "nombre");
    assert_eq!(unico("nombre", &mut usados), "nombre_2");
    assert_eq!(unico("nombre", &mut usados), "nombre_3");
    assert_eq!(unico("otro", &mut usados), "otro");
    assert_eq!(usados, vec!["nombre", "nombre_2", "nombre_3", "otro"]);
    let mut con_hueco = vec!["a_2".to_string()];
    assert_eq!(unico("a", &mut con_hueco), "a");
    assert_eq!(unico("a", &mut con_hueco), "a_3");
}

#[test]
fn el_nombre_completo_va_de_la_raiz_al_widget() {
    let partes = vec!["datos".to_string(), "".to_string(), "cliente".to_string(), "nombre".to_string()];
    assert_eq!(nombre_completo(&partes), "datos.cliente.nombre");
    assert_eq!(nombre_completo(&vec!["".to_string(), "solo".to_string()]), "solo");
    assert_eq!(nombre_completo(&vec![]), "");
    assert_eq!(nombre_de_nivel("", "a"), "a");
    assert_eq!(nombre_de_nivel("a", ""), "a");
    assert_eq!(nombre_de_nivel("a", "b"), "a.b");
}

#[test]
fn el_valor_de_un_boton_va_sin_barra() {
    assert_eq!(valor_para_xfdf("/Yes", true), "Yes");
    assert_eq!(valor_para_xfdf("//Off", true), "Off");
    assert_eq!(valor_para_xfdf("/ruta/a", false), "/ruta/a", "en un campo de texto la barra es un carácter más");
}

#[test]
fn tres_radios_con_el_mismo_nombre_son_un_campo() {
    let widgets = vec![
        ((10, 0), "pago".to_string()),
        ((11, 0), "nombre".to_string()),
        ((12, 0), "pago".to_string()),
        ((13, 0), "pago".to_string()),
    ];
    let grupos = agrupa_por_nombre(&widgets);
    assert_eq!(grupos, vec![
        ("pago".to_string(), vec![(10, 0), (12, 0), (13, 0)]),
        ("nombre".to_string(), vec![(11, 0)]),
    ]);
    // el que choca con un campo que ya estaba se renombra con guion
    let plan = plan_de_reposicion(&widgets, &vec!["nombre".to_string(), "nombre-2".to_string()]);
    assert_eq!(plan.len(), 2);
    assert_eq!(plan[0].nombre, "pago");
    assert!(!plan[0].renombrado);
    assert_eq!(plan[0].widgets, vec![(10, 0), (12, 0), (13, 0)]);
    assert_eq!(plan[1].nombre, "nombre-3");
    assert!(plan[1].renombrado);
    assert_eq!(plan[1].widgets, vec![(11, 0)]);
    let mut usados = vec!["x".to_string()];
    assert_eq!(primer_nombre_libre("x", "-", &mut usados), "x-2");
}

#[test]
fn los_widgets_huerfanos_son_los_que_no_cuelgan_de_nada() {
    let a = |id: Option<(u32, u16)>, widget: bool, con_padre: bool, nombre: &str| AnotacionDePagina {
        id,
        widget,
        con_padre,
        nombre: nombre.to_string(),
    };
    let anotaciones = vec![
        a(Some((10, 0)), true, false, "nombre"),
        a(Some((11, 0)), true, false, "ya"),
        a(None, true, false, "directo"),
        a(Some((12, 0)), false, false, "enlace"),
        a(Some((13, 0)), true, true, "hijo"),
        a(Some((14, 0)), true, false, ""),
        a(Some((15, 0)), true, false, "talla"),
    ];
    let colgados = vec![(11u32, 0u16)];
    assert_eq!(
        widgets_huerfanos(&anotaciones, &colgados),
        vec![((10u32, 0u16), "nombre".to_string()), ((15u32, 0u16), "talla".to_string())]
    );
}

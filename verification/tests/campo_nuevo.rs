use vitela::campo_nuevo::{grupos_de_radios, nombres_usados, FichaDeObjeto, cuantos_campos, plan_de_campo, PropsCampo, TipoCampo, COMBO, OBLIGATORIO, RADIO, SOLO_LECTURA};

fn props() -> PropsCampo {
    PropsCampo { tooltip: None, obligatorio: false, solo_lectura: false, valor_defecto: None, orden_tab: None }
}

fn textos(v: &[&str]) -> Vec<String> {
    v.iter().map(|s| s.to_string()).collect()
}

#[test]
fn un_campo_de_texto_toma_el_primer_nombre_libre() {
    let usados = textos(&["nombre", "nombre-2", "otro"]);
    let mut p = props();
    p.valor_defecto = Some("Ana".to_string());
    p.tooltip = Some("  Su nombre ".to_string());
    let plan = plan_de_campo("  nombre ", "text", 0, 1, true, &None, &None, &None, &p, &usados, &vec![]).unwrap();
    assert_eq!(plan.tipo, TipoCampo::Texto);
    assert_eq!(plan.nombre, "nombre-3");
    assert_eq!(plan.valor, "Ana");
    assert!(plan.con_defecto);
    assert_eq!(plan.ayuda, Some("  Su nombre ".to_string()));
    assert_eq!(plan.banderas, 0);
    assert_eq!(plan.padre, None);
    let libre = plan_de_campo("apellidos", "text", 0, 1, true, &None, &None, &None, &props(), &usados, &vec![]).unwrap();
    assert_eq!(libre.nombre, "apellidos");
    assert!(!libre.con_defecto);
    assert_eq!(libre.valor, "");
}

#[test]
fn los_rechazos_van_en_su_orden() {
    let nada: Vec<String> = vec![];
    let e = |nombre: &str, tipo: &str, pagina: u16, area: bool, grupo: Option<&str>, export: Option<&str>, ops: Option<Vec<String>>| {
        plan_de_campo(nombre, tipo, pagina, 2, area, &grupo.map(String::from), &export.map(String::from), &ops, &props(), &nada, &vec![])
            .err()
    };
    assert_eq!(e("   ", "radio", 9, false, None, None, None).unwrap(), "El campo necesita un nombre");
    assert_eq!(e("x", "radio", 9, false, None, None, None).unwrap(), "El área del campo es demasiado pequeña");
    assert_eq!(e("x", "radio", 9, true, Some("  "), None, None).unwrap(), "Un botón de radio necesita el nombre de su grupo");
    assert_eq!(
        e("x", "combo", 9, true, None, None, Some(textos(&[" ", ""]))).unwrap(),
        "Un desplegable necesita al menos una opción"
    );
    assert_eq!(e("x", "list", 2, true, None, None, Some(textos(&["a"]))).unwrap(), "Página fuera de rango");
    assert_eq!(e("x", "firma", 1, true, None, None, None).unwrap(), "Tipo de campo desconocido: firma");
    assert_eq!(e("Off", "radio", 1, true, Some("g"), None, None).unwrap(), "«Off» no puede ser el valor de una opción");
    assert_eq!(e("x", "radio", 1, true, Some("g"), Some(" Off "), None).unwrap(), "«Off» no puede ser el valor de una opción");
    assert!(e("x", "radio", 1, true, Some("g"), Some("Sí"), None).is_none());
}

#[test]
fn un_radio_cuelga_del_grupo_que_ya_existe() {
    let radios = vec![("otro".to_string(), (3u32, 0u16)), ("talla".to_string(), (7u32, 0u16)), ("talla".to_string(), (9u32, 0u16))];
    let mut p = props();
    p.valor_defecto = Some("M".to_string());
    p.obligatorio = true;
    let plan = plan_de_campo("opcion", "radio", 0, 1, true, &Some(" talla ".to_string()), &Some(" M ".to_string()), &None, &p, &vec![], &radios).unwrap();
    assert_eq!(plan.tipo, TipoCampo::Radio);
    assert_eq!(plan.grupo, "talla");
    assert_eq!(plan.padre, Some((7u32, 0u16)));
    assert_eq!(plan.valor_exportado, "M");
    assert!(plan.marcado);
    assert_eq!(plan.banderas, RADIO + OBLIGATORIO);
    let nuevo = plan_de_campo("L", "radio", 0, 1, true, &Some("color".to_string()), &None, &None, &props(), &vec![], &radios).unwrap();
    assert_eq!(nuevo.padre, None);
    assert_eq!(nuevo.valor_exportado, "L");
    assert!(!nuevo.marcado);
}

#[test]
fn una_casilla_se_marca_con_un_si() {
    for (valor, marcada) in [("Yes", true), ("on", true), ("sí", true), ("si", true), ("true", true), ("no", false), ("YES", false)] {
        let mut p = props();
        p.valor_defecto = Some(valor.to_string());
        let plan = plan_de_campo("acepto", "checkbox", 0, 1, true, &None, &None, &None, &p, &vec![], &vec![]).unwrap();
        assert_eq!(plan.tipo, TipoCampo::Casilla);
        assert_eq!(plan.marcado, marcada, "{valor}");
        assert!(plan.con_defecto);
    }
}

#[test]
fn un_desplegable_limpia_sus_opciones_y_elige_su_valor() {
    let mut p = props();
    p.valor_defecto = Some("b".to_string());
    p.solo_lectura = true;
    let ops = Some(textos(&[" a ", "b", "  ", "b"]));
    let plan = plan_de_campo("pais", "combo", 1, 2, true, &None, &None, &ops, &p, &vec![], &vec![]).unwrap();
    assert_eq!(plan.tipo, TipoCampo::Desplegable);
    assert_eq!(plan.opciones, textos(&["a", "b", "b"]));
    assert_eq!(plan.valor, "b");
    assert_eq!(plan.indice, Some(1));
    assert_eq!(plan.banderas, COMBO + SOLO_LECTURA);
    p.valor_defecto = Some("z".to_string());
    let lista = plan_de_campo("pais", "list", 1, 2, true, &None, &None, &ops, &p, &vec![], &vec![]).unwrap();
    assert_eq!(lista.tipo, TipoCampo::Lista);
    assert_eq!(lista.valor, "");
    assert_eq!(lista.indice, None);
    assert_eq!(lista.banderas, SOLO_LECTURA);
}

#[test]
fn un_lote_vacio_no_crea_nada() {
    assert_eq!(cuantos_campos(0).unwrap_err(), "No hay ningún campo que crear");
    assert_eq!(cuantos_campos(8).unwrap(), 8);
}

#[test]
fn los_nombres_y_los_grupos_del_documento() {
    let f = |id: u32, nombre: Option<&str>, boton: bool, banderas: i64| FichaDeObjeto {
        id: (id, 0),
        nombre: nombre.map(String::from),
        boton,
        banderas,
    };
    let objetos = vec![
        f(1, Some("nombre"), false, 0),
        f(2, None, true, 32768),
        f(3, Some("talla"), true, 32768 | 2),
        f(4, Some("acepto"), true, 0),
        f(5, Some("color"), false, 32768),
    ];
    assert_eq!(nombres_usados(&objetos), textos(&["nombre", "talla", "acepto", "color"]));
    assert_eq!(grupos_de_radios(&objetos), vec![("talla".to_string(), (3u32, 0u16))]);
}

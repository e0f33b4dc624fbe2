use vitela::xfdf::{escapa_xml, nombre_de_documento, xfdf_de_campos, cabe_el_reparto, datos_para_importar, lee_sucesos, lee_xfdf_datos, reparte_datos, EventoXml, ImportacionFormulario,
    LectorXfdf};

fn inicio(etiqueta: &str, atributos: &[(&str, &str)]) -> EventoXml {
    EventoXml::Inicio(etiqueta.to_string(), atributos.iter().map(|(k, v)| format!(" {k}=\"{v}\"")).collect())
}

fn texto(t: &str) -> EventoXml {
    EventoXml::Texto(t.to_string())
}

fn fin(etiqueta: &str) -> EventoXml {
    EventoXml::Fin(etiqueta.to_string())
}

fn campo(nombre: &str, valores: &[&str]) -> (String, Vec<String>) {
    (nombre.to_string(), valores.iter().map(|v| v.to_string()).collect())
}

#[test]
fn los_sucesos_dan_los_campos_con_sus_valores() {
    let eventos = vec![
        inicio("xfdf", &[]),
        inicio("fields", &[]),
        inicio("field", &[("name", "nombre")]),
        texto("\n"),
        inicio("value", &[]),
        texto("Jorge Gómez"),
        fin("value"),
        fin("field"),
        inicio("FIELD", &[("otro", "x"), ("name", "lista")]),
        inicio("Value", &[]),
        texto("uno"),
        fin("value"),
        inicio("value", &[]),
        texto("dos"),
        texto(" y tres"),
        fin("VALUE"),
        fin("field"),
        fin("fields"),
        fin("xfdf"),
    ];
    assert_eq!(
        lee_sucesos(&eventos),
        vec![campo("nombre", &["Jorge Gómez"]), campo("lista", &["uno", "dos y tres"])]
    );
}

#[test]
fn un_campo_sin_nombre_no_cuenta_y_uno_sin_cerrar_si() {
    let eventos = vec![
        inicio("field", &[]),
        inicio("value", &[]),
        texto("perdido"),
        fin("value"),
        fin("field"),
        inicio("field", &[("name", "abierto")]),
        inicio("value", &[]),
        texto("a"),
        fin("value"),
        EventoXml::Otro,
    ];
    assert_eq!(lee_sucesos(&eventos), vec![campo("abierto", &["a"])]);
}

#[test]
fn un_campo_nuevo_cierra_el_anterior() {
    let mut lector = LectorXfdf::nuevo();
    for e in [
        inicio("field", &[("name", "a")]),
        inicio("field", &[("name", "b")]),
        inicio("value", &[]),
        texto("v"),
        fin("value"),
    ] {
        lector.lee(&e);
    }
    assert_eq!(lector.termina(), vec![campo("a", &[]), campo("b", &["v"])]);
}

#[test]
fn el_texto_fuera_de_un_valor_no_cuenta() {
    let eventos = vec![
        inicio("field", &[("name", "n")]),
        texto("suelto"),
        inicio("value", &[]),
        texto("dentro"),
        fin("value"),
        texto("otro suelto"),
        fin("field"),
    ];
    assert_eq!(lee_sucesos(&eventos), vec![campo("n", &["dentro"])]);
}

#[test]
fn un_xfdf_de_otra_version_trae_un_campo_que_no_esta() {
    let xml = "<?xml version=\"1.0\" encoding=\"UTF-8\"?>\n\
               <xfdf xmlns=\"http://ns.adobe.com/xfdf/\">\n<fields>\n\
               <field name=\"nombre\"><value>Ana</value></field>\n\
               <field name=\"telefono\"><value>600 000 000</value></field>\n\
               </fields></xfdf>";
    let datos = lee_xfdf_datos(xml).unwrap();
    assert_eq!(datos, vec![campo("nombre", &["Ana"]), campo("telefono", &["600 000 000"])]);
    let campos = vec![("nombre".to_string(), (7u32, 0u16)), ("acepto".to_string(), (9u32, 0u16))];
    let (escrituras, informe) = reparte_datos(&datos, &campos, &vec![]);
    assert_eq!(informe, ImportacionFormulario { rellenados: 1, sin_campo: 1 });
    assert_eq!(escrituras, vec![((7u32, 0u16), vec!["Ana".to_string()])]);
}

#[test]
fn los_datos_exportados_vuelven_a_leerse() {
    let xml = "<?xml version=\"1.0\" encoding=\"UTF-8\"?>\n\
               <xfdf xmlns=\"http://ns.adobe.com/xfdf/\" xml:space=\"preserve\">\n\
               <f href=\"formularios2-xfdf-origen.pdf\"/>\n<fields>\n\
               <field name=\"nombre\">\n<value>Jorge Gómez</value>\n</field>\n\
               <field name=\"acepto\">\n<value>Yes</value>\n</field>\n\
               </fields>\n</xfdf>\n";
    let datos = datos_para_importar(xml).unwrap();
    assert_eq!(datos, vec![campo("nombre", &["Jorge Gómez"]), campo("acepto", &["Yes"])]);
    let campos = vec![("nombre".to_string(), (4u32, 0u16)), ("acepto".to_string(), (5u32, 0u16))];
    let (escrituras, informe) = reparte_datos(&datos, &campos, &vec![]);
    assert_eq!(informe, ImportacionFormulario { rellenados: 2, sin_campo: 0 });
    assert_eq!(escrituras.len(), 2);
}

#[test]
fn un_fichero_sin_datos_no_se_traga_en_silencio() {
    let e = datos_para_importar("<xfdf><fields></fields></xfdf>").unwrap_err();
    assert!(e.contains("datos de formulario"));
    assert_eq!(e, "Ese fichero no trae datos de formulario");
}

#[test]
fn un_xml_roto_se_dice_en_llano() {
    let e = lee_xfdf_datos("<xfdf><fields></campos></xfdf>").unwrap_err();
    assert!(e.starts_with("Ese fichero no es un XFDF que se pueda leer: "), "{e}");
}

#[test]
fn las_firmas_y_los_campos_repetidos_al_importar() {
    let datos = vec![campo("firma", &["x"]), campo("dup", &["1", "2"]), campo("nada", &[])];
    let campos = vec![
        ("dup".to_string(), (1u32, 0u16)),
        ("firma".to_string(), (2u32, 0u16)),
        ("dup".to_string(), (3u32, 0u16)),
    ];
    let (escrituras, informe) = reparte_datos(&datos, &campos, &vec![(2u32, 0u16)]);
    assert_eq!(informe, ImportacionFormulario { rellenados: 1, sin_campo: 2 });
    assert_eq!(escrituras, vec![((3u32, 0u16), vec!["1".to_string(), "2".to_string()])]);
}

#[test]
fn el_informe_cabe_en_sus_cuentas() {
    let datos = vec![campo("a", &["1"]), campo("b", &[])];
    let campos = vec![("a".to_string(), (1u32, 0u16))];
    assert!(cabe_el_reparto(&datos, &campos, &vec![]));
}

#[test]
fn las_etiquetas_vacias_y_los_cdata_no_cuentan() {
    let eventos = vec![
        EventoXml::Vacio("field".to_string(), " name=\"suelto\"".to_string()),
        inicio("field", &[("name", "n")]),
        inicio("value", &[]),
        texto("a"),
        EventoXml::Cdata("b".to_string()),
        EventoXml::Entidad("amp".to_string()),
        texto("c"),
        fin("value"),
        EventoXml::Vacio("value".to_string(), String::new()),
        fin("field"),
    ];
    assert_eq!(lee_sucesos(&eventos), vec![campo("n", &["ac"])]);
    let xml = "<xfdf><fields><field name=\"x\"/><field name=\"y\"><value>uno <![CDATA[dos]]> &amp; tres</value></field></fields></xfdf>";
    assert_eq!(lee_xfdf_datos(xml).unwrap(), vec![campo("y", &["uno   tres"])]);
}

#[test]
fn el_nombre_local_de_una_etiqueta_con_prefijo() {
    let eventos = vec![
        EventoXml::Inicio("x:field".to_string(), " x:name=\"con prefijo\" name=\"otro\"".to_string()),
        EventoXml::Inicio("x:VALUE".to_string(), String::new()),
        texto("v"),
        fin("value"),
    ];
    assert_eq!(lee_sucesos(&eventos), vec![campo("con prefijo", &["v"])]);
}

#[test]
fn los_datos_salen_en_un_xfdf_y_vuelven() {
    let campos = vec![
        ("nombre".to_string(), vec!["Jorge Gómez".to_string()], false),
        ("firma".to_string(), vec![], true),
        ("acepto".to_string(), vec!["Yes".to_string()], false),
        ("nota".to_string(), vec!["a < b & \"c\"".to_string()], false),
    ];
    let (xml, n) = xfdf_de_campos("formularios2-xfdf-origen.pdf", &campos).unwrap();
    assert_eq!(n, 3);
    assert!(xml.contains("name=\"nombre\""), "{xml}");
    assert!(xml.contains("<value>Jorge Gómez</value>"), "{xml}");
    assert!(xml.contains("name=\"acepto\""), "{xml}");
    assert!(xml.contains("<f href=\"formularios2-xfdf-origen.pdf\"/>"), "{xml}");
    assert!(!xml.contains("firma"), "{xml}");
    assert!(xml.contains("<value>a &lt; b &amp; &quot;c&quot;</value>"), "{xml}");
    let vuelta = lee_xfdf_datos(&xml).unwrap();
    assert_eq!(vuelta[0], campo("nombre", &["Jorge Gómez"]));
    assert_eq!(vuelta[1], campo("acepto", &["Yes"]));
    assert_eq!(vuelta.len(), 3);
}

#[test]
fn sin_campos_no_se_escribe_un_xfdf_vacio() {
    let solo_firmas = vec![("firma".to_string(), vec![], true)];
    assert_eq!(xfdf_de_campos("x.pdf", &solo_firmas).unwrap_err(), "Este documento no tiene campos de formulario");
    assert!(xfdf_de_campos("x.pdf", &vec![]).unwrap_err().contains("campos de formulario"));
}

#[test]
fn el_xml_se_escapa() {
    assert_eq!(escapa_xml("<a href='x'>&\"</a>"), "&lt;a href=&apos;x&apos;&gt;&amp;&quot;&lt;/a&gt;");
    assert_eq!(escapa_xml("Gómez"), "Gómez");
}

#[test]
fn el_href_lleva_el_nombre_del_documento_sin_carpeta() {
    assert_eq!(
        nombre_de_documento(&Some("/Users/jorge/Documentos/Solicitud de beca.pdf".to_string()), "/tmp/vitela-c-x.pdf"),
        "Solicitud de beca.pdf"
    );
    assert_eq!(nombre_de_documento(&None, "/tmp/formularios2-xfdf-origen.pdf"), "formularios2-xfdf-origen.pdf");
}

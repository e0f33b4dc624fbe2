use vitela::documentos::{coloca, es_carpeta_de_adjunto, es_copia_huerfana, es_instantanea_huerfana, mensaje_apertura,
    nombre_de_copia, nombres_apuntados, respuesta_de_apertura, salvada, ErrorDeApertura, DOCUMENTOS_EN_CACHE};

/// El caché suelta siempre el documento que lleva más tiempo sin tocarse.
#[test]
fn el_cache_suelta_el_documento_que_lleva_mas_tiempo_sin_tocarse() {
    let mut cache: Vec<(String, u32)> = Vec::new();
    let mut n = 0u32;
    let mut abre = |cache: &mut Vec<(String, u32)>, nombre: &str| {
        n += 1;
        let orden = n;
        coloca(cache, nombre, || Ok(orden)).expect("colocar")
    };
    for i in 0..DOCUMENTOS_EN_CACHE {
        abre(&mut cache, &format!("doc{i}"));
    }
    assert_eq!(cache.len(), DOCUMENTOS_EN_CACHE);
    // volver a usar el primero lo pasa al final, que es el sitio del más
    // reciente
    let i = abre(&mut cache, "doc0");
    assert_eq!(i, cache.len() - 1);
    assert_eq!(cache.len(), DOCUMENTOS_EN_CACHE, "no se ha vuelto a cargar");
    assert_eq!(cache[i].1, 1, "y es el mismo documento, no otro cargado de nuevo");

    // uno más: se suelta el que llevaba más tiempo sin tocarse, que ya
    // no es el primero
    abre(&mut cache, "otro");
    assert_eq!(cache.len(), DOCUMENTOS_EN_CACHE, "el tope se respeta");
    let nombres: Vec<&str> = cache.iter().map(|(p, _)| p.as_str()).collect();
    assert!(nombres.contains(&"doc0"), "el que se volvió a usar sigue: {nombres:?}");
    assert!(!nombres.contains(&"doc1"), "el más viejo se ha soltado: {nombres:?}");
    assert!(nombres.contains(&"otro"), "y el nuevo ha entrado: {nombres:?}");
}

#[test]
fn una_carga_que_falla_no_toca_el_cache() {
    let mut cache: Vec<(String, u32)> = vec![("a".into(), 1), ("b".into(), 2)];
    let r = coloca(&mut cache, "c", || Err("No se ha podido leer el PDF".to_string()));
    assert_eq!(r, Err("No se ha podido leer el PDF".to_string()));
    assert_eq!(cache, vec![("a".to_string(), 1), ("b".to_string(), 2)]);
    // lo que ya está no se vuelve a cargar: la carga ni se llama
    let r = coloca(&mut cache, "a", || -> Result<u32, String> { panic!("no tocaba cargar") });
    assert_eq!(r, Ok(1));
    assert_eq!(cache, vec![("b".to_string(), 2), ("a".to_string(), 1)]);
}

#[test]
fn la_copia_de_trabajo_se_llama_como_el_original() {
    assert_eq!(nombre_de_copia("/Users/ana/factura.pdf", 123), "vitela-factura-123.pdf");
    assert_eq!(nombre_de_copia("", 7), "vitela-documento-7.pdf");
    assert_eq!(
        nombre_de_copia("/tmp/informe.final.pdf", 340282366920938463463374607431768211455),
        "vitela-informe.final-340282366920938463463374607431768211455.pdf"
    );
}

#[test]
fn barrido_respeta_recientes_y_ajenos() {
    let nada: Vec<String> = Vec::new();
    for n in ["vitela-a-1.pdf", "vitela-b-2.pdf.tmp"] {
        assert!(es_copia_huerfana(n, &nada), "{n} es nuestra");
    }
    for n in ["otro.pdf", "vitela-notas.txt"] {
        assert!(!es_copia_huerfana(n, &nada), "{n} no es nuestra");
    }
    assert!(es_instantanea_huerfana("x.pdf.snap3", &nada));
    assert!(!es_instantanea_huerfana("x.pdf", &nada));
    assert!(es_carpeta_de_adjunto("vitela-adjunto-123"));
    assert!(!es_carpeta_de_adjunto("carpeta-ajena"));
}

#[test]
fn el_barrido_respeta_la_copia_que_hay_que_recuperar() {
    let copias = vec![
        "/tmp/x/vitela-salvada-1.pdf".to_string(),
        "/tmp/x/vitela-salvada-2.pdf".to_string(),
        "/".to_string(),
    ];
    let apuntados = nombres_apuntados(&copias);
    assert_eq!(apuntados, vec!["vitela-salvada-1.pdf".to_string(), "vitela-salvada-2.pdf".to_string()]);
    assert!(salvada("vitela-salvada-1.pdf", &apuntados));
    assert!(!es_copia_huerfana("vitela-salvada-1.pdf", &apuntados), "la copia apuntada sobrevive");
    assert!(!es_copia_huerfana("vitela-salvada-2.pdf", &apuntados), "y la del segundo documento también");
    assert!(es_copia_huerfana("vitela-huerfana-2.pdf", &apuntados), "la huérfana de verdad se va");
    for snap in ["vitela-salvada-1.pdf.snap1", "vitela-salvada-2.pdf.snap1"] {
        assert!(!es_instantanea_huerfana(snap, &apuntados), "y sus instantáneas con ellas: {snap}");
    }
}

#[test]
fn errores_de_apertura_en_castellano() {
    assert_eq!(
        mensaje_apertura(&ErrorDeApertura::NoEncontrado, "/no/existe/de-verdad.pdf"),
        "No se encuentra «de-verdad.pdf»: puede que se haya movido, cambiado de nombre o borrado"
    );
    assert_eq!(
        mensaje_apertura(&ErrorDeApertura::Formato, "/tmp/vitela-no-soy-un-pdf.txt"),
        "El fichero no es un PDF válido o está dañado"
    );
    assert_eq!(mensaje_apertura(&ErrorDeApertura::Fichero, "x"), "No se ha podido abrir el fichero");
    assert_eq!(
        mensaje_apertura(&ErrorDeApertura::Seguridad, "x"),
        "El PDF no permite abrirse con esta contraseña"
    );
    assert_eq!(
        mensaje_apertura(&ErrorDeApertura::Lectura("Permission denied".into()), "x"),
        "No se ha podido leer el fichero: Permission denied"
    );
    assert_eq!(
        mensaje_apertura(&ErrorDeApertura::Otro("raro".into()), "x"),
        "No se ha podido abrir el PDF: raro"
    );
    assert_eq!(
        respuesta_de_apertura(&ErrorDeApertura::Contrasena("PasswordError".into()), "x"),
        "PASSWORD_REQUIRED"
    );
    assert_eq!(respuesta_de_apertura(&ErrorDeApertura::Formato, "x"), "El fichero no es un PDF válido o está dañado");
}

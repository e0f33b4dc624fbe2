use vitela::asn1::{hijos, tlv};
use vitela::ocsp::{acepta_respuesta, cert_id, cert_id_de, estado, fecha_de, iso_de_generalized, peticion, url_de, url_de_aia, CamposCertificado};

fn une(partes: &[Vec<u8>]) -> Vec<u8> {
    partes.concat()
}

/// Una `OCSPResponse` de mentira con estado «concedida», un
/// `BasicOCSPResponse` dentro y la hora que se pida.
fn respuesta_de_prueba(cuando: &str) -> Vec<u8> {
    let responder = tlv(0xA1, &tlv(0x30, &[]));
    let producido = tlv(0x18, cuando.as_bytes());
    let respuestas = tlv(0x30, &[]);
    let datos = tlv(0x30, &une(&[responder, producido, respuestas]));
    let alg = tlv(0x30, &une(&[tlv(0x06, &[0x2B, 0x0E, 0x03, 0x02, 0x1A]), tlv(0x05, &[])]));
    let firma = tlv(0x03, &[0x00, 0x01, 0x02, 0x03]);
    let basica = tlv(0x30, &une(&[datos, alg, firma]));
    let tipo = tlv(0x06, &[0x2B, 0x06, 0x01, 0x05, 0x05, 0x07, 0x30, 0x01, 0x01]);
    let bytes = tlv(0xA0, &tlv(0x30, &une(&[tipo, tlv(0x04, &basica)])));
    tlv(0x30, &une(&[tlv(0x0A, &[0x00]), bytes]))
}

/// La fecha de la prueba se lee de la respuesta archivada, que es lo que
/// enseña la tarjeta: **sin salir a la red**.
#[test]
fn la_fecha_de_la_prueba_sale_de_la_respuesta_guardada() {
    let der = respuesta_de_prueba("20260910194012Z");
    assert_eq!(estado(&der), Some(0), "la respuesta va como concedida");
    assert_eq!(fecha_de(&der).as_deref(), Some("2026-09-10T19:40:12+00:00"));
}

#[test]
fn una_fecha_mal_escrita_no_es_una_fecha() {
    assert_eq!(iso_de_generalized("20260910194012Z").as_deref(), Some("2026-09-10T19:40:12+00:00"));
    assert_eq!(iso_de_generalized("20240229000000Z").as_deref(), Some("2024-02-29T00:00:00+00:00"));
    assert_eq!(iso_de_generalized("20230229000000Z"), None, "2023 no es bisiesto");
    assert_eq!(iso_de_generalized("20261310194012Z"), None, "no hay mes trece");
    assert_eq!(iso_de_generalized("2026091019401Z"), None);
    assert_eq!(fecha_de(&respuesta_de_prueba("ayer")), None);
}

#[test]
fn un_tlv_lleva_su_longitud_en_der() {
    assert_eq!(tlv(0x04, &[1, 2, 3]), vec![0x04, 0x03, 1, 2, 3]);
    let largo = vec![7u8; 200];
    let t = tlv(0x04, &largo);
    assert_eq!(&t[..3], &[0x04, 0x81, 200]);
    assert_eq!(t.len(), 203);
    let muy_largo = vec![0u8; 300];
    assert_eq!(&tlv(0x30, &muy_largo)[..4], &[0x30, 0x82, 0x01, 0x2C]);
    let h = hijos(&tlv(0x30, &une(&[tlv(0x02, &[5]), tlv(0x04, &largo)])));
    assert_eq!(h.len(), 2);
    assert_eq!(h[0].0, 0x02);
    assert_eq!(h[0].1, vec![5]);
    assert_eq!(h[1].1.len(), 200);
}

#[test]
fn la_respuesta_se_archiva_solo_si_esta_concedida() {
    let buena = respuesta_de_prueba("20260910194012Z");
    assert_eq!(acepta_respuesta(buena.clone()).unwrap(), buena);
    let no_autorizada = tlv(0x30, &tlv(0x0A, &[0x06]));
    assert!(acepta_respuesta(no_autorizada).unwrap_err().contains("no responde por este certificado"));
    let rara = tlv(0x30, &tlv(0x0A, &[0x01]));
    assert!(acepta_respuesta(rara).unwrap_err().contains("no sabe leer"));
    assert_eq!(estado(&[0xFF]), None);
}

fn aia_con(url: &str) -> Vec<u8> {
    let ocsp = tlv(0x06, &[0x2B, 0x06, 0x01, 0x05, 0x05, 0x07, 0x30, 0x01]);
    let emisores = tlv(0x06, &[0x2B, 0x06, 0x01, 0x05, 0x05, 0x07, 0x30, 0x02]);
    let d1 = tlv(0x30, &une(&[emisores, tlv(0x86, b"http://ca.example/ca.crt")]));
    let d2 = tlv(0x30, &une(&[ocsp, tlv(0x86, url.as_bytes())]));
    tlv(0x30, &une(&[d1, d2]))
}

/// Dónde preguntar sale del propio certificado (AIA); sin AIA no hay a
/// quién preguntar.
#[test]
fn la_direccion_del_respondedor_sale_de_la_extension_aia() {
    let aia = aia_con("http://127.0.0.1:41960/ocsp");
    assert_eq!(url_de_aia(&aia).as_deref(), Some("http://127.0.0.1:41960/ocsp"));
    let oid_aia = vec![0x2B, 0x06, 0x01, 0x05, 0x05, 0x07, 0x01, 0x01];
    let con = CamposCertificado {
        nombre_der: Some(tlv(0x30, &[])),
        clave_publica: vec![1, 2, 3],
        serie_der: Some(tlv(0x02, &[0x2A])),
        extensiones: vec![(oid_aia, aia)],
    };
    assert_eq!(url_de(&con).as_deref(), Some("http://127.0.0.1:41960/ocsp"));
    let sin = CamposCertificado { nombre_der: None, clave_publica: vec![], serie_der: None, extensiones: vec![] };
    assert_eq!(url_de(&sin), None, "sin AIA no hay a quién preguntar");
}

#[test]
fn la_peticion_lleva_el_cert_id_del_certificado() {
    let nombre = tlv(0x30, &[]);
    let id = cert_id_de(&nombre, &[9, 9, 9], &tlv(0x02, &[0x2A]));
    let partes = hijos(&id);
    // algoritmo, resumen del nombre, resumen de la clave, número de serie
    assert_eq!(partes.len(), 4);
    assert_eq!(partes[1].0, 0x04);
    assert_eq!(partes[1].1.len(), 20, "un SHA-1");
    assert_ne!(partes[1].1, partes[2].1, "el resumen depende de lo resumido");
    assert_eq!(partes[3], (0x02, vec![0x2A]));
    let p = peticion(&id);
    assert_eq!(p[0], 0x30);
    let emisor = CamposCertificado { nombre_der: Some(nombre.clone()), clave_publica: vec![9, 9, 9], serie_der: None, extensiones: vec![] };
    let cert = CamposCertificado { nombre_der: None, clave_publica: vec![], serie_der: Some(tlv(0x02, &[0x2A])), extensiones: vec![] };
    assert_eq!(cert_id(&cert, &emisor).unwrap(), id);
    let sin_serie = CamposCertificado { nombre_der: None, clave_publica: vec![], serie_der: None, extensiones: vec![] };
    assert_eq!(cert_id(&sin_serie, &emisor).unwrap_err(), "No se ha podido leer el número de serie del certificado");
    let sin_nombre = CamposCertificado { nombre_der: None, clave_publica: vec![], serie_der: None, extensiones: vec![] };
    assert_eq!(cert_id(&cert, &sin_nombre).unwrap_err(), "No se ha podido leer el emisor del certificado");
}

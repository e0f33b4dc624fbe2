//! **Comprobar si el certificado sigue vigente** (OCSP, RFC 6960) y leer
//! la prueba archivada.
//!
//! Se pregunta al firmar, nunca al abrir, y si el respondedor no contesta
//! se firma igual. Aquí está lo que se calcula: dónde preguntar (lo dice el
//! propio certificado en su extensión AIA), qué se pregunta (el `CertID`,
//! con hashes SHA-1 del emisor) y qué se lee de la respuesta (su estado y
//! la fecha en que se hizo la comprobación). El DER se escribe y se lee a
//! mano; el envío por la red lo hace quien llama.

use vstd::prelude::*;
use vstd::utf8::{decode_utf8, valid_utf8};
use ::der::{Decode, Encode};
use ::sha1::Digest;
use crate::asn1::{cabe, copia, hijos, hijos_caben, hijos_spec, largo_tlv, ley_hijos_de_contenedor, mismos_bytes, tlv, tlv_spec, tlvs_spec, vista_tlvs};

verus! {

/// Cómo se llama en llano lo que hay al otro lado, para los avisos.
pub const SERVICIO: &'static str = "servidor de comprobación del certificado";

/// `id-ad-ocsp` (1.3.6.1.5.5.7.48.1): el método de acceso que dice dónde
/// preguntar.
pub open spec fn oid_ad_ocsp() -> Seq<u8> {
    seq![0x2Bu8, 0x06, 0x01, 0x05, 0x05, 0x07, 0x30, 0x01]
}

/// `id-pe-authorityInfoAccess` (1.3.6.1.5.5.7.1.1), sin etiqueta ni
/// longitud.
pub open spec fn oid_aia() -> Seq<u8> {
    seq![0x2Bu8, 0x06, 0x01, 0x05, 0x05, 0x07, 0x01, 0x01]
}

/// SHA-1 (1.3.14.3.2.26), sin etiqueta ni longitud.
pub open spec fn oid_sha1() -> Seq<u8> {
    seq![0x2Bu8, 0x0E, 0x03, 0x02, 0x1A]
}

fn bytes_oid_ad_ocsp() -> (r: Vec<u8>)
    ensures
        r@ == oid_ad_ocsp(),
{
    let r: Vec<u8> = vec![0x2B, 0x06, 0x01, 0x05, 0x05, 0x07, 0x30, 0x01];
    assert(r@ =~= oid_ad_ocsp());
    r
}

fn bytes_oid_aia() -> (r: Vec<u8>)
    ensures
        r@ == oid_aia(),
{
    let r: Vec<u8> = vec![0x2B, 0x06, 0x01, 0x05, 0x05, 0x07, 0x01, 0x01];
    assert(r@ =~= oid_aia());
    r
}

fn bytes_oid_sha1() -> (r: Vec<u8>)
    ensures
        r@ == oid_sha1(),
{
    let r: Vec<u8> = vec![0x2B, 0x0E, 0x03, 0x02, 0x1A];
    assert(r@ =~= oid_sha1());
    r
}

/// El contenido del primer TLV de la lista con esa etiqueta.
pub open spec fn primero_con(hs: Seq<(u8, Seq<u8>)>, t: u8) -> Option<Seq<u8>>
    decreases hs.len(),
{
    if hs.len() == 0 {
        None
    } else if hs[0].0 == t {
        Some(hs[0].1)
    } else {
        primero_con(hs.drop_first(), t)
    }
}

/// El contenido del último TLV de la lista con esa etiqueta.
pub open spec fn ultimo_con(hs: Seq<(u8, Seq<u8>)>, t: u8) -> Option<Seq<u8>>
    decreases hs.len(),
{
    if hs.len() == 0 {
        None
    } else if hs.last().0 == t {
        Some(hs.last().1)
    } else {
        ultimo_con(hs.drop_last(), t)
    }
}

proof fn primero_con_cabe(hs: Seq<(u8, Seq<u8>)>, t: u8)
    requires
        forall|i: int| 0 <= i < hs.len() ==> cabe(#[trigger] hs[i].1),
    ensures
        primero_con(hs, t) matches Some(c) ==> cabe(c),
    decreases hs.len(),
{
    if hs.len() > 0 && hs[0].0 != t {
        assert forall|i: int| 0 <= i < hs.drop_first().len() implies cabe(#[trigger] hs.drop_first()[i].1) by {
            assert(hs.drop_first()[i] == hs[i + 1]);
        }
        primero_con_cabe(hs.drop_first(), t);
    } else if hs.len() > 0 {
        assert(cabe(hs[0].1));
    }
}

/// El primer hijo con la etiqueta dada.
fn primero_con_exec(hs: &Vec<(u8, Vec<u8>)>, t: u8) -> (r: Option<Vec<u8>>)
    ensures
        match r {
            Some(c) => primero_con(vista_tlvs(hs@), t) == Some(c@),
            None => primero_con(vista_tlvs(hs@), t) is None,
        },
{
    let ghost v = vista_tlvs(hs@);
    let mut k: usize = 0;
    assert(v.skip(0) =~= v);
    while k < hs.len()
        invariant
            v == vista_tlvs(hs@),
            k <= hs.len(),
            primero_con(v, t) == primero_con(v.skip(k as int), t),
        decreases hs.len() - k,
    {
        assert(v.skip(k as int)[0] == (hs@[k as int].0, hs@[k as int].1@));
        if hs[k].0 == t {
            let c = &hs[k].1;
            return Some(copia(c.as_slice(), 0, c.len()));
        }
        assert(v.skip(k as int).drop_first() =~= v.skip(k + 1));
        k = k + 1;
    }
    assert(v.skip(k as int).len() == 0);
    None
}

/// El último hijo con la etiqueta dada.
fn ultimo_con_exec(hs: &Vec<(u8, Vec<u8>)>, t: u8) -> (r: Option<Vec<u8>>)
    ensures
        match r {
            Some(c) => ultimo_con(vista_tlvs(hs@), t) == Some(c@),
            None => ultimo_con(vista_tlvs(hs@), t) is None,
        },
{
    let ghost v = vista_tlvs(hs@);
    let mut r: Option<Vec<u8>> = None;
    let mut k: usize = 0;
    while k < hs.len()
        invariant
            v == vista_tlvs(hs@),
            k <= hs.len(),
            match r {
                Some(c) => ultimo_con(v.take(k as int), t) == Some(c@),
                None => ultimo_con(v.take(k as int), t) is None,
            },
        decreases hs.len() - k,
    {
        assert(v.take(k + 1).drop_last() =~= v.take(k as int));
        assert(v.take(k + 1).last() == (hs@[k as int].0, hs@[k as int].1@));
        if hs[k].0 == t {
            let c = &hs[k].1;
            r = Some(copia(c.as_slice(), 0, c.len()));
        }
        k = k + 1;
    }
    assert(v.take(hs.len() as int) =~= v);
    r
}

// ---------------------------------------------------------------------
// Dónde preguntar
// ---------------------------------------------------------------------

/// La URL de una `AccessDescription`: si su método es `id-ad-ocsp` y su
/// sitio (`uniformResourceIdentifier`, etiqueta `[6]`) es texto. Si hay
/// varios de cada, vale el último.
pub open spec fn url_de_descripcion(d: Seq<u8>) -> Option<Seq<char>> {
    let hs = hijos_spec(tlv_spec(0x30, d));
    match ultimo_con(hs, 0x06) {
        Some(m) => match ultimo_con(hs, 0x86) {
            Some(s) => if m == oid_ad_ocsp() && valid_utf8(s) { Some(decode_utf8(s)) } else { None },
            None => None,
        },
        None => None,
    }
}

/// La primera URL de respondedor de una lista de `AccessDescription`.
pub open spec fn url_en_lista(ds: Seq<(u8, Seq<u8>)>) -> Option<Seq<char>>
    decreases ds.len(),
{
    if ds.len() == 0 {
        None
    } else {
        match url_de_descripcion(ds[0].1) {
            Some(u) => Some(u),
            None => url_en_lista(ds.drop_first()),
        }
    }
}

/// La URL del respondedor OCSP que lleva el valor de una extensión AIA
/// (`SEQUENCE OF AccessDescription`).
pub open spec fn url_aia_spec(aia: Seq<u8>) -> Option<Seq<char>> {
    url_en_lista(hijos_spec(aia))
}

/// Bytes como texto UTF-8 (`std::str::from_utf8`): el texto si son UTF-8
/// válido, nada si no. Promete eso y solo eso.
#[verifier::external_body]
pub(crate) fn texto_utf8(b: &[u8]) -> (r: Option<String>)
    ensures
        match r {
            Some(s) => valid_utf8(b@) && s@ == decode_utf8(b@),
            None => !valid_utf8(b@),
        },
{
    std::str::from_utf8(b).ok().map(|s| s.to_string())
}

/// **Dónde preguntar por un certificado**, leído del valor de su extensión
/// AIA. Sin un método `id-ad-ocsp` con su dirección no hay a quién
/// preguntar.
pub fn url_de_aia(aia: &[u8]) -> (r: Option<String>)
    ensures
        match r {
            Some(u) => url_aia_spec(aia@) == Some(u@),
            None => url_aia_spec(aia@) is None,
        },
{
    let descripciones = hijos(aia);
    let ghost ds = vista_tlvs(descripciones@);
    let oid = bytes_oid_ad_ocsp();
    proof { hijos_caben(aia@); }
    let mut k: usize = 0;
    assert(ds.skip(0) =~= ds);
    while k < descripciones.len()
        invariant
            ds == vista_tlvs(descripciones@),
            ds == hijos_spec(aia@),
            oid@ == oid_ad_ocsp(),
            k <= descripciones.len(),
            url_en_lista(ds) == url_en_lista(ds.skip(k as int)),
            forall|i: int| 0 <= i < ds.len() ==> cabe(#[trigger] ds[i].1),
        decreases descripciones.len() - k,
    {
        let d = &descripciones[k].1;
        assert(ds[k as int].1 == d@);
        assert(ds.skip(k as int)[0] == ds[k as int]);
        let envuelto = tlv(0x30, d.as_slice());
        let partes = hijos(&envuelto);
        let metodo = ultimo_con_exec(&partes, 0x06);
        let sitio = ultimo_con_exec(&partes, 0x86);
        match (metodo, sitio) {
            (Some(m), Some(s)) => {
                if mismos_bytes(&m, &oid) {
                    match texto_utf8(s.as_slice()) {
                        Some(url) => {
                            assert(url_de_descripcion(d@) == Some(url@));
                            return Some(url);
                        },
                        None => {},
                    }
                }
            },
            _ => {},
        }
        assert(ds.skip(k as int).drop_first() =~= ds.skip(k + 1));
        k = k + 1;
    }
    None
}

/// Lo que del certificado hace falta para preguntar por él: su sujeto y su
/// número de serie en DER (si se dejan codificar), los bytes de su clave
/// pública y sus extensiones (el OID de cada una, sin etiqueta ni
/// longitud, y su valor).
pub struct CamposCertificado {
    pub nombre_der: Option<Vec<u8>>,
    pub clave_publica: Vec<u8>,
    pub serie_der: Option<Vec<u8>>,
    pub extensiones: Vec<(Vec<u8>, Vec<u8>)>,
}

/// La lista de extensiones con cada OID y valor vistos como bytes.
pub open spec fn vista_extensiones(es: Seq<(Vec<u8>, Vec<u8>)>) -> Seq<(Seq<u8>, Seq<u8>)> {
    Seq::new(es.len(), |i: int| (es[i].0@, es[i].1@))
}

pub open spec fn vista_opcional(o: Option<Vec<u8>>) -> Option<Seq<u8>> {
    match o {
        Some(v) => Some(v@),
        None => None,
    }
}

impl View for CamposCertificado {
    type V = (Option<Seq<u8>>, Seq<u8>, Option<Seq<u8>>, Seq<(Seq<u8>, Seq<u8>)>);

    open spec fn view(&self) -> Self::V {
        (vista_opcional(self.nombre_der), self.clave_publica@, vista_opcional(self.serie_der), vista_extensiones(self.extensiones@))
    }
}

/// Los campos de un certificado X.509 en DER, tal como los lee `x509-cert`
/// (nada si no es un certificado).
pub uninterp spec fn campos_x509(der: Seq<u8>) -> Option<(Option<Seq<u8>>, Seq<u8>, Option<Seq<u8>>, Seq<(Seq<u8>, Seq<u8>)>)>;

/// Lee un certificado X.509 en DER con `x509_cert::Certificate::from_der`
/// y pasa a bytes lo que hace falta de él (`to_der` del sujeto y del número
/// de serie, los bytes de la clave pública y el OID y el valor de cada
/// extensión). Promete solo que el resultado es el que nombra
/// `campos_x509`: cómo se decodifica un certificado lo dice el crate.
#[verifier::external_body]
pub(crate) fn lee_certificado(der: &[u8]) -> (r: Option<CamposCertificado>)
    ensures
        match r {
            Some(c) => campos_x509(der@) == Some(c@),
            None => campos_x509(der@) is None,
        },
{
    let c = x509_cert::Certificate::from_der(der).ok()?;
    let tbs = &c.tbs_certificate;
    Some(CamposCertificado {
        nombre_der: tbs.subject.to_der().ok(),
        clave_publica: tbs.subject_public_key_info.subject_public_key.raw_bytes().to_vec(),
        serie_der: tbs.serial_number.to_der().ok(),
        extensiones: tbs.extensions.iter().flatten()
            .map(|e| (e.extn_id.as_bytes().to_vec(), e.extn_value.as_bytes().to_vec())).collect(),
    })
}

/// Los campos del certificado que viene en DER.
pub fn campos_de_certificado(der: &[u8]) -> (r: Option<CamposCertificado>)
    ensures
        match r {
            Some(c) => campos_x509(der@) == Some(c@),
            None => campos_x509(der@) is None,
        },
{
    lee_certificado(der)
}

/// El valor de la primera extensión AIA, si el certificado la lleva.
pub open spec fn valor_aia(es: Seq<(Seq<u8>, Seq<u8>)>) -> Option<Seq<u8>>
    decreases es.len(),
{
    if es.len() == 0 {
        None
    } else if es[0].0 == oid_aia() {
        Some(es[0].1)
    } else {
        valor_aia(es.drop_first())
    }
}

/// La URL del respondedor OCSP que el propio certificado lleva escrita en
/// su AIA. Muchos certificados no la traen, y entonces no se pregunta.
pub fn url_de(cert: &CamposCertificado) -> (r: Option<String>)
    ensures
        match valor_aia(cert@.3) {
            Some(v) => match r {
                Some(u) => url_aia_spec(v) == Some(u@),
                None => url_aia_spec(v) is None,
            },
            None => r is None,
        },
{
    let oid = bytes_oid_aia();
    let ghost es = cert@.3;
    let mut k: usize = 0;
    assert(es.skip(0) =~= es);
    while k < cert.extensiones.len()
        invariant
            es == cert@.3,
            es == vista_extensiones(cert.extensiones@),
            oid@ == oid_aia(),
            k <= cert.extensiones.len(),
            valor_aia(es) == valor_aia(es.skip(k as int)),
        decreases cert.extensiones.len() - k,
    {
        assert(es.skip(k as int)[0] == (cert.extensiones@[k as int].0@, cert.extensiones@[k as int].1@));
        if mismos_bytes(&cert.extensiones[k].0, &oid) {
            return url_de_aia(cert.extensiones[k].1.as_slice());
        }
        assert(es.skip(k as int).drop_first() =~= es.skip(k + 1));
        k = k + 1;
    }
    None
}

// ---------------------------------------------------------------------
// Qué se pregunta
// ---------------------------------------------------------------------

/// El resumen SHA-1 de unos bytes.
pub uninterp spec fn resumen_sha1(datos: Seq<u8>) -> Seq<u8>;

/// `Sha1::digest` del crate `sha1`. Promete que el resultado es el que
/// nombra `resumen_sha1` y que mide 20 bytes, como todo SHA-1.
#[verifier::external_body]
fn sha1(datos: &[u8]) -> (r: Vec<u8>)
    ensures
        r@ == resumen_sha1(datos@),
        r@.len() == 20,
{
    sha1::Sha1::digest(datos).to_vec()
}

/// El `AlgorithmIdentifier` de SHA-1, con su `NULL`.
pub open spec fn algoritmo_sha1() -> Seq<u8> {
    tlv_spec(0x30, tlv_spec(0x06, oid_sha1()) + tlv_spec(0x05, Seq::empty()))
}

/// El `CertID` del RFC 6960: el algoritmo, el hash del nombre del emisor,
/// el de su clave pública y el número de serie del certificado.
pub open spec fn cert_id_spec(nombre_emisor: Seq<u8>, clave_emisor: Seq<u8>, serie: Seq<u8>) -> Seq<u8> {
    tlv_spec(
        0x30,
        algoritmo_sha1() + tlv_spec(0x04, resumen_sha1(nombre_emisor)) + tlv_spec(0x04, resumen_sha1(clave_emisor)) + serie,
    )
}

/// **El `CertID` lleva, en este orden, el algoritmo, el hash del nombre
/// del emisor, el hash de su clave y el número de serie** (RFC 6960,
/// 4.1.1): leídos de vuelta, los hijos del `CertID` son el
/// `AlgorithmIdentifier` de SHA-1, el SHA-1 del nombre (`issuerNameHash`),
/// el SHA-1 de la clave (`issuerKeyHash`) y el `INTEGER` de la serie.
pub proof fn ley_cert_id(nombre: Seq<u8>, clave: Seq<u8>, numero: Seq<u8>)
    requires
        resumen_sha1(nombre).len() == 20,
        resumen_sha1(clave).len() == 20,
        numero.len() < 0x1_0000_0000 - 1024,
    ensures
        hijos_spec(cert_id_spec(nombre, clave, tlv_spec(0x02, numero))) == seq![
            (0x30u8, tlv_spec(0x06, oid_sha1()) + tlv_spec(0x05, Seq::<u8>::empty())),
            (0x04u8, resumen_sha1(nombre)),
            (0x04u8, resumen_sha1(clave)),
            (0x02u8, numero),
        ],
{
    let alg = tlv_spec(0x06, oid_sha1()) + tlv_spec(0x05, Seq::<u8>::empty());
    let h1 = resumen_sha1(nombre);
    let h2 = resumen_sha1(clave);
    let hs = seq![(0x30u8, alg), (0x04u8, h1), (0x04u8, h2), (0x02u8, numero)];
    largo_tlv(0x06, oid_sha1());
    largo_tlv(0x05, Seq::<u8>::empty());
    largo_tlv(0x30, alg);
    largo_tlv(0x04, h1);
    largo_tlv(0x04, h2);
    largo_tlv(0x02, numero);
    let d1 = hs.drop_first();
    let d2 = d1.drop_first();
    let d3 = d2.drop_first();
    let d4 = d3.drop_first();
    assert(d4 =~= Seq::<(u8, Seq<u8>)>::empty());
    assert(tlvs_spec(d4) == Seq::<u8>::empty());
    assert(d3[0] == (0x02u8, numero));
    assert(tlvs_spec(d3) =~= tlv_spec(0x02, numero));
    assert(d2[0] == (0x04u8, h2));
    assert(tlvs_spec(d2) =~= tlv_spec(0x04, h2) + tlv_spec(0x02, numero));
    assert(d1[0] == (0x04u8, h1));
    assert(tlvs_spec(d1) =~= tlv_spec(0x04, h1) + tlv_spec(0x04, h2) + tlv_spec(0x02, numero));
    assert(tlvs_spec(hs) =~= algoritmo_sha1() + tlv_spec(0x04, h1) + tlv_spec(0x04, h2) + tlv_spec(0x02, numero));
    assert forall|i: int| 0 <= i < hs.len() implies cabe(#[trigger] hs[i].1) by {
        if i == 0 {} else if i == 1 {} else if i == 2 {} else {}
    }
    ley_hijos_de_contenedor(0x30, hs);
}

/// Un número de serie que cabe con holgura en un `CertID`.
pub open spec fn serie_razonable(serie: Seq<u8>) -> bool {
    serie.len() < 0x1_0000_0000 - 1024
}

/// Une trozos de bytes.
fn junta(a: &mut Vec<u8>, b: &Vec<u8>)
    ensures
        final(a)@ == old(a)@ + b@,
{
    let ghost inicio = a@;
    let mut k: usize = 0;
    while k < b.len()
        invariant
            k <= b.len(),
            a@ == inicio + b@.take(k as int),
        decreases b.len() - k,
    {
        a.push(b[k]);
        assert(b@.take(k as int).push(b@[k as int]) =~= b@.take(k + 1));
        k = k + 1;
    }
    assert(b@.take(b.len() as int) =~= b@);
}

/// El `CertID` a partir del nombre y la clave del emisor y del número de
/// serie del certificado, ya en bytes.
pub fn cert_id_de(nombre_emisor: &[u8], clave_emisor: &[u8], serie: &[u8]) -> (r: Vec<u8>)
    requires
        serie_razonable(serie@),
    ensures
        r@ == cert_id_spec(nombre_emisor@, clave_emisor@, serie@),
        forall|n: Seq<u8>| #[trigger] tlv_spec(0x02, n) == serie@ ==> hijos_spec(r@) == seq![
            (0x30u8, tlv_spec(0x06, oid_sha1()) + tlv_spec(0x05, Seq::<u8>::empty())),
            (0x04u8, resumen_sha1(nombre_emisor@)),
            (0x04u8, resumen_sha1(clave_emisor@)),
            (0x02u8, n),
        ],
{
    let vacio: Vec<u8> = Vec::new();
    let oid = bytes_oid_sha1();
    let mut alg_dentro = tlv(0x06, oid.as_slice());
    let nulo = tlv(0x05, vacio.as_slice());
    junta(&mut alg_dentro, &nulo);
    let mut cuerpo = tlv(0x30, alg_dentro.as_slice());
    let h1 = sha1(nombre_emisor);
    let h2 = sha1(clave_emisor);
    let t1 = tlv(0x04, h1.as_slice());
    let t2 = tlv(0x04, h2.as_slice());
    junta(&mut cuerpo, &t1);
    junta(&mut cuerpo, &t2);
    let s = copia(serie, 0, serie.len());
    assert(serie@.subrange(0, serie@.len() as int) =~= serie@);
    junta(&mut cuerpo, &s);
    let r = tlv(0x30, cuerpo.as_slice());
    proof {
        assert forall|n: Seq<u8>| #[trigger] tlv_spec(0x02, n) == serie@ implies hijos_spec(r@) == seq![
            (0x30u8, tlv_spec(0x06, oid_sha1()) + tlv_spec(0x05, Seq::<u8>::empty())),
            (0x04u8, resumen_sha1(nombre_emisor@)),
            (0x04u8, resumen_sha1(clave_emisor@)),
            (0x02u8, n),
        ] by {
            ley_cert_id(nombre_emisor@, clave_emisor@, n);
        }
    }
    r
}

/// El `CertID` de un certificado, con su emisor entero (se hashean su
/// nombre y su clave pública, no el certificado).
pub fn cert_id(cert: &CamposCertificado, emisor: &CamposCertificado) -> (r: Result<Vec<u8>, String>)
    ensures
        match emisor@.0 {
            None => r is Err && r->Err_0@ == "No se ha podido leer el emisor del certificado"@,
            Some(nombre) => match cert@.2 {
                None => r is Err && r->Err_0@ == "No se ha podido leer el número de serie del certificado"@,
                Some(serie) => if serie_razonable(serie) {
                    r is Ok && r->Ok_0@ == cert_id_spec(nombre, emisor@.1, serie)
                } else {
                    r is Err && r->Err_0@ == "El número de serie del certificado es demasiado largo"@
                },
            },
        },
{
    let nombre = match &emisor.nombre_der {
        Some(n) => n,
        None => {
            return Err(String::from_str("No se ha podido leer el emisor del certificado"));
        },
    };
    let serie = match &cert.serie_der {
        Some(s) => s,
        None => {
            return Err(String::from_str("No se ha podido leer el número de serie del certificado"));
        },
    };
    if serie.len() >= 0xFFFF_FC00 {
        return Err(String::from_str("El número de serie del certificado es demasiado largo"));
    }
    Ok(cert_id_de(nombre.as_slice(), emisor.clave_publica.as_slice(), serie.as_slice()))
}

/// La petición entera, `OCSPRequest ::= SEQUENCE { tbsRequest }`, con una
/// sola pregunta dentro y sin nonce.
pub open spec fn peticion_spec(cert_id: Seq<u8>) -> Seq<u8> {
    tlv_spec(0x30, tlv_spec(0x30, tlv_spec(0x30, tlv_spec(0x30, cert_id))))
}

/// Un `CertID` que cabe con holgura en la petición.
pub open spec fn cert_id_razonable(cert_id: Seq<u8>) -> bool {
    cert_id.len() < 0x1_0000_0000 - 64
}

pub fn peticion(cert_id: &[u8]) -> (r: Vec<u8>)
    requires
        cert_id_razonable(cert_id@),
    ensures
        r@ == peticion_spec(cert_id@),
{
    let request = tlv(0x30, cert_id);
    proof { largo_tlv(0x30, cert_id@); }
    let lista = tlv(0x30, request.as_slice());
    proof { largo_tlv(0x30, request@); }
    let tbs = tlv(0x30, lista.as_slice());
    proof { largo_tlv(0x30, lista@); }
    tlv(0x30, tbs.as_slice())
}

// ---------------------------------------------------------------------
// Qué se lee de la respuesta
// ---------------------------------------------------------------------

/// El `responseStatus` de la respuesta (0 = concedida).
pub open spec fn estado_spec(respuesta: Seq<u8>) -> Option<u8> {
    match primero_con(hijos_spec(respuesta), 0x0A) {
        Some(v) => if v.len() > 0 { Some(v[0]) } else { None },
        None => None,
    }
}

pub fn estado(respuesta: &[u8]) -> (r: Option<u8>)
    ensures
        r == estado_spec(respuesta@),
{
    let hs = hijos(respuesta);
    match primero_con_exec(&hs, 0x0A) {
        Some(v) => if v.len() > 0 { Some(v[0]) } else { None },
        None => None,
    }
}

/// Lo que se hace con la respuesta del respondedor: se archiva si es
/// «concedida»; si no, se cuenta en llano, porque archivar un error no es
/// archivar una prueba.
pub fn acepta_respuesta(respuesta: Vec<u8>) -> (r: Result<Vec<u8>, String>)
    ensures
        estado_spec(respuesta@) == Some(0u8) ==> r == Ok::<Vec<u8>, String>(respuesta),
        estado_spec(respuesta@) == Some(6u8) ==> r is Err && r->Err_0@
            == "El servidor de comprobación del certificado no responde por este certificado: la prueba de que sigue vigente no se puede archivar"@,
        estado_spec(respuesta@) != Some(0u8) && estado_spec(respuesta@) != Some(6u8) ==> r is Err && r->Err_0@
            == "El servidor de comprobación del certificado ha contestado algo que Vitela no sabe leer: el documento se firma igual, pero sin esa prueba dentro"@,
{
    match estado(respuesta.as_slice()) {
        Some(0) => Ok(respuesta),
        Some(6) => Err(String::from_str(
            "El servidor de comprobación del certificado no responde por este certificado: la prueba de que sigue vigente no se puede archivar",
        )),
        _ => Err(String::from_str(
            "El servidor de comprobación del certificado ha contestado algo que Vitela no sabe leer: el documento se firma igual, pero sin esa prueba dentro",
        )),
    }
}

/// Las cifras decimales.
pub open spec fn es_cifra(c: char) -> bool {
    '0' <= c && c <= '9'
}

pub open spec fn valor_cifra(c: char) -> nat {
    ((c as u32) - 48) as nat
}

/// El número de dos cifras que empieza en `i`.
pub open spec fn dos_cifras(s: Seq<char>, i: int) -> nat {
    valor_cifra(s[i]) * 10 + valor_cifra(s[i + 1])
}

pub open spec fn bisiesto(y: nat) -> bool {
    y % 4 == 0 && (y % 100 != 0 || y % 400 == 0)
}

pub open spec fn dias_del_mes(y: nat, m: nat) -> nat {
    if m == 2 {
        if bisiesto(y) { 29 } else { 28 }
    } else if m == 4 || m == 6 || m == 9 || m == 11 {
        30
    } else {
        31
    }
}

/// Una `GeneralizedTime` en UTC sin fracciones (`AAAAMMDDhhmmssZ`) que
/// nombra un instante que existe.
pub open spec fn generalized_valida(s: Seq<char>) -> bool {
    &&& s.len() == 15
    &&& s[14] == 'Z'
    &&& forall|i: int| 0 <= i < 14 ==> es_cifra(#[trigger] s[i])
    &&& 1 <= dos_cifras(s, 4) <= 12
    &&& 1 <= dos_cifras(s, 6) <= dias_del_mes(
        valor_cifra(s[0]) * 1000 + valor_cifra(s[1]) * 100 + dos_cifras(s, 2),
        dos_cifras(s, 4),
    )
    &&& dos_cifras(s, 8) <= 23
    &&& dos_cifras(s, 10) <= 59
    &&& dos_cifras(s, 12) <= 59
}

/// La misma hora en ISO 8601 (RFC 3339), en UTC.
pub open spec fn iso_spec(s: Seq<char>) -> Option<Seq<char>> {
    if generalized_valida(s) {
        Some(s.subrange(0, 4) + "-"@ + s.subrange(4, 6) + "-"@ + s.subrange(6, 8) + "T"@ + s.subrange(8, 10)
            + ":"@ + s.subrange(10, 12) + ":"@ + s.subrange(12, 14) + "+00:00"@)
    } else {
        None
    }
}

fn valor_de_cifra(c: char) -> (r: u32)
    requires
        es_cifra(c),
    ensures
        r == valor_cifra(c),
        r < 10,
{
    (c as u32) - 48
}

/// Añade a `out` los caracteres de `s` en `[desde, hasta)`.
fn copia_caracteres(out: &mut Vec<char>, s: &Vec<char>, desde: usize, hasta: usize)
    requires
        desde <= hasta <= s.len(),
    ensures
        final(out)@ == old(out)@ + s@.subrange(desde as int, hasta as int),
{
    let ghost inicio = out@;
    let mut k = desde;
    while k < hasta
        invariant
            desde <= k <= hasta <= s.len(),
            out@ == inicio + s@.subrange(desde as int, k as int),
        decreases hasta - k,
    {
        out.push(s[k]);
        assert(s@.subrange(desde as int, k as int).push(s@[k as int]) =~= s@.subrange(desde as int, k + 1));
        k = k + 1;
    }
}

/// Añade a `out` el texto `t`.
fn copia_texto(out: &mut Vec<char>, t: &str)
    ensures
        final(out)@ == old(out)@ + t@,
{
    let v = crate::cadenas::caracteres(t);
    copia_caracteres(out, &v, 0, v.len());
    assert(v@.subrange(0, v@.len() as int) =~= t@);
}

/// Una `GeneralizedTime` (`20260910194012Z`) en ISO 8601
/// (`2026-09-10T19:40:12+00:00`), o nada si no nombra un instante.
pub fn iso_de_generalized(texto: &str) -> (r: Option<String>)
    ensures
        match r {
            Some(iso) => iso_spec(texto@) == Some(iso@),
            None => iso_spec(texto@) is None,
        },
{
    let s = crate::cadenas::caracteres(texto);
    if s.len() != 15 || s[14] != 'Z' {
        return None;
    }
    let mut i: usize = 0;
    while i < 14
        invariant
            s@ == texto@,
            s.len() == 15,
            i <= 14,
            forall|k: int| 0 <= k < i ==> es_cifra(#[trigger] s@[k]),
        decreases 14 - i,
    {
        if !('0' <= s[i] && s[i] <= '9') {
            return None;
        }
        i = i + 1;
    }
    let y = valor_de_cifra(s[0]) * 1000 + valor_de_cifra(s[1]) * 100 + valor_de_cifra(s[2]) * 10 + valor_de_cifra(s[3]);
    let mes = valor_de_cifra(s[4]) * 10 + valor_de_cifra(s[5]);
    let dia = valor_de_cifra(s[6]) * 10 + valor_de_cifra(s[7]);
    let hora = valor_de_cifra(s[8]) * 10 + valor_de_cifra(s[9]);
    let minuto = valor_de_cifra(s[10]) * 10 + valor_de_cifra(s[11]);
    let segundo = valor_de_cifra(s[12]) * 10 + valor_de_cifra(s[13]);
    let bis = y % 4 == 0 && (y % 100 != 0 || y % 400 == 0);
    let dias: u32 = if mes == 2 {
        if bis { 29 } else { 28 }
    } else if mes == 4 || mes == 6 || mes == 9 || mes == 11 {
        30
    } else {
        31
    };
    if !(1 <= mes && mes <= 12 && 1 <= dia && dia <= dias && hora <= 23 && minuto <= 59 && segundo <= 59) {
        return None;
    }
    assert(generalized_valida(s@));
    let mut out: Vec<char> = Vec::new();
    copia_caracteres(&mut out, &s, 0, 4);
    copia_texto(&mut out, "-");
    copia_caracteres(&mut out, &s, 4, 6);
    copia_texto(&mut out, "-");
    copia_caracteres(&mut out, &s, 6, 8);
    copia_texto(&mut out, "T");
    copia_caracteres(&mut out, &s, 8, 10);
    copia_texto(&mut out, ":");
    copia_caracteres(&mut out, &s, 10, 12);
    copia_texto(&mut out, ":");
    copia_caracteres(&mut out, &s, 12, 14);
    copia_texto(&mut out, "+00:00");
    Some(crate::cadenas::cadena_de(&out))
}

/// **Cuándo se hizo la comprobación** (`producedAt`), en ISO 8601: se lee
/// de la respuesta guardada, sin salir a la red.
///
/// `OCSPResponse → [0] responseBytes → SEQUENCE { responseType, response }`
/// y dentro del `OCTET STRING` el `BasicOCSPResponse`, cuyo
/// `tbsResponseData` lleva el `producedAt`.
pub open spec fn fecha_spec(respuesta: Seq<u8>) -> Option<Seq<char>> {
    match primero_con(hijos_spec(respuesta), 0xA0) {
        None => None,
        Some(bytes) => match primero_con(hijos_spec(tlv_spec(0xA0, bytes)), 0x30) {
            None => None,
            Some(b) => match primero_con(hijos_spec(tlv_spec(0x30, b)), 0x04) {
                None => None,
                Some(basica_der) => match primero_con(hijos_spec(basica_der), 0x30) {
                    None => None,
                    Some(d) => match primero_con(hijos_spec(tlv_spec(0x30, d)), 0x18) {
                        None => None,
                        Some(v) => if valid_utf8(v) { iso_spec(decode_utf8(v)) } else { None },
                    },
                },
            },
        },
    }
}

pub fn fecha_de(respuesta: &[u8]) -> (r: Option<String>)
    ensures
        match r {
            Some(f) => fecha_spec(respuesta@) == Some(f@),
            None => fecha_spec(respuesta@) is None,
        },
{
    let h1 = hijos(respuesta);
    proof { hijos_caben(respuesta@); primero_con_cabe(hijos_spec(respuesta@), 0xA0); }
    let bytes = primero_con_exec(&h1, 0xA0)?;
    let dentro = tlv(0xA0, bytes.as_slice());
    let h2 = hijos(dentro.as_slice());
    proof { hijos_caben(dentro@); primero_con_cabe(hijos_spec(dentro@), 0x30); }
    let b = primero_con_exec(&h2, 0x30)?;
    let basica = tlv(0x30, b.as_slice());
    let h3 = hijos(basica.as_slice());
    let basica_der = primero_con_exec(&h3, 0x04)?;
    let h4 = hijos(basica_der.as_slice());
    proof { hijos_caben(basica_der@); primero_con_cabe(hijos_spec(basica_der@), 0x30); }
    let d = primero_con_exec(&h4, 0x30)?;
    let datos = tlv(0x30, d.as_slice());
    let h5 = hijos(datos.as_slice());
    let v = primero_con_exec(&h5, 0x18)?;
    let texto = texto_utf8(v.as_slice())?;
    iso_de_generalized(texto.as_str())
}

} // verus!

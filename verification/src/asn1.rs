//! DER escrito y leído a mano: la cabecera de un TLV (etiqueta y
//! longitud), la codificación de un TLV y los TLV que hay dentro de un
//! contenedor. Es lo que necesitan la petición y la respuesta OCSP.

use vstd::prelude::*;

verus! {

/// 256 elevado a `k`.
pub open spec fn pot256(k: nat) -> nat
    decreases k,
{
    if k == 0 { 1 } else { 256 * pot256((k - 1) as nat) }
}

/// El número que escriben unos bytes en big-endian.
pub open spec fn valor_be(b: Seq<u8>) -> nat
    decreases b.len(),
{
    if b.len() == 0 { 0 } else { (valor_be(b.drop_last()) * 256 + b.last()) as nat }
}

/// Los bytes big-endian de un número, sin ceros a la izquierda (al menos
/// uno).
pub open spec fn bytes_be(n: nat) -> Seq<u8>
    decreases n,
{
    if n < 256 { seq![n as u8] } else { bytes_be(n / 256).push((n % 256) as u8) }
}

/// La longitud de un TLV en DER: un byte si cabe en siete bits; si no,
/// `0x80` más el número de bytes, y esos bytes.
pub open spec fn longitud_der(n: nat) -> Seq<u8> {
    if n < 128 {
        seq![n as u8]
    } else {
        let b = bytes_be(n);
        seq![(0x80 + b.len()) as u8] + b
    }
}

/// Un TLV: la etiqueta, la longitud del contenido y el contenido.
pub open spec fn tlv_spec(etiqueta: u8, contenido: Seq<u8>) -> Seq<u8> {
    seq![etiqueta] + longitud_der(contenido.len()) + contenido
}

/// La cabecera del TLV con que empieza `s`: su etiqueta, cuántos bytes
/// ocupa la cabecera y cuántos el contenido. Nada si no es una cabecera
/// DER de una sola etiqueta y hasta cuatro bytes de longitud, o si el
/// contenido no cabe en lo que queda.
pub open spec fn cabecera_spec(s: Seq<u8>) -> Option<(u8, nat, nat)> {
    if s.len() < 2 {
        None
    } else if s[1] < 0x80 {
        if 2 + s[1] <= s.len() { Some((s[0], 2, s[1] as nat)) } else { None }
    } else {
        let n = (s[1] - 0x80) as nat;
        if n == 0 || n > 4 || s.len() < 2 + n {
            None
        } else {
            let l = valor_be(s.subrange(2, 2 + n as int));
            if 2 + n + l <= s.len() { Some((s[0], 2 + n, l)) } else { None }
        }
    }
}

/// Los TLV que van uno detrás de otro en `s`, hasta el primero que no se
/// deja leer.
pub open spec fn tlvs_seguidos(s: Seq<u8>) -> Seq<(u8, Seq<u8>)>
    decreases s.len(),
{
    if s.len() == 0 {
        Seq::empty()
    } else {
        match cabecera_spec(s) {
            None => Seq::empty(),
            Some((t, i, l)) => {
                if i >= 2 && i + l <= s.len() {
                    seq![(t, s.subrange(i as int, (i + l) as int))] + tlvs_seguidos(s.skip((i + l) as int))
                } else {
                    Seq::empty()
                }
            },
        }
    }
}

/// Los TLV que hay dentro del contenedor con que empieza `der`.
pub open spec fn hijos_spec(der: Seq<u8>) -> Seq<(u8, Seq<u8>)> {
    match cabecera_spec(der) {
        None => Seq::empty(),
        Some((_, ini, largo)) => tlvs_seguidos(der.subrange(ini as int, (ini + largo) as int)),
    }
}

/// Varios TLV escritos uno detrás de otro.
pub open spec fn tlvs_spec(hs: Seq<(u8, Seq<u8>)>) -> Seq<u8>
    decreases hs.len(),
{
    if hs.len() == 0 { Seq::empty() } else { tlv_spec(hs[0].0, hs[0].1) + tlvs_spec(hs.drop_first()) }
}

/// La lista de TLV con cada contenido visto como sucesión de bytes.
pub open spec fn vista_tlvs(hs: Seq<(u8, Vec<u8>)>) -> Seq<(u8, Seq<u8>)> {
    Seq::new(hs.len(), |i: int| (hs[i].0, hs[i].1@))
}

/// Un contenido que cabe en una longitud DER de cuatro bytes.
pub open spec fn cabe(c: Seq<u8>) -> bool {
    c.len() < 0x1_0000_0000
}

// ---------------------------------------------------------------------
// Lemas de aritmética de bytes
// ---------------------------------------------------------------------

proof fn pot256_cuatro()
    ensures
        pot256(1) == 256,
        pot256(2) == 0x1_0000,
        pot256(3) == 0x100_0000,
        pot256(4) == 0x1_0000_0000,
{
    reveal_with_fuel(pot256, 5);
}

proof fn valor_be_acotado(b: Seq<u8>)
    ensures
        valor_be(b) < pot256(b.len()),
    decreases b.len(),
{
    if b.len() > 0 {
        valor_be_acotado(b.drop_last());
    }
}

proof fn valor_de_bytes_be(n: nat)
    ensures
        valor_be(bytes_be(n)) == n,
        1 <= bytes_be(n).len(),
        n < pot256(bytes_be(n).len()),
        bytes_be(n).len() > 1 ==> n >= 256,
    decreases n,
{
    if n < 256 {
        assert(seq![n as u8].drop_last() =~= Seq::<u8>::empty());
        assert((n as u8) as nat == n);
        assert(valor_be(seq![n as u8].drop_last()) == 0);
        assert(valor_be(seq![n as u8]) == n);
        reveal_with_fuel(pot256, 2);
    } else {
        valor_de_bytes_be(n / 256);
        let b = bytes_be(n / 256);
        assert(bytes_be(n).drop_last() =~= b);
        vstd::arithmetic::div_mod::lemma_fundamental_div_mod(n as int, 256);
        assert(bytes_be(n).last() == (n % 256) as u8);
        assert(((n % 256) as u8) as nat == n % 256);
    }
}

proof fn bytes_be_cortos(n: nat, k: nat)
    requires
        1 <= k,
        n < pot256(k),
    ensures
        bytes_be(n).len() <= k,
    decreases n,
{
    if n >= 256 {
        if k == 1 {
            reveal_with_fuel(pot256, 2);
        } else {
            bytes_be_cortos(n / 256, (k - 1) as nat);
        }
    }
}

/// La cabecera de un TLV escrito por `tlv_spec` se lee de vuelta: su
/// etiqueta y la longitud de su contenido, con lo que venga detrás.
pub proof fn cabecera_de_tlv(t: u8, c: Seq<u8>, resto: Seq<u8>)
    requires
        cabe(c),
    ensures
        cabecera_spec(tlv_spec(t, c) + resto) == Some((t, 1 + longitud_der(c.len()).len(), c.len())),
        2 <= 1 + longitud_der(c.len()).len() <= 6,
        (tlv_spec(t, c) + resto).subrange(1 + longitud_der(c.len()).len() as int, 1 + longitud_der(c.len()).len() + c.len() as int) == c,
        (tlv_spec(t, c) + resto).skip(1 + longitud_der(c.len()).len() + c.len() as int) == resto,
{
    let s = tlv_spec(t, c) + resto;
    let ld = longitud_der(c.len());
    pot256_cuatro();
    if c.len() >= 128 {
        let b = bytes_be(c.len());
        valor_de_bytes_be(c.len());
        bytes_be_cortos(c.len(), 4);
        assert(s.subrange(2, 2 + b.len() as int) =~= b);
    }
    assert(s.subrange(1 + ld.len() as int, 1 + ld.len() + c.len() as int) =~= c);
    assert(s.skip(1 + ld.len() + c.len() as int) =~= resto);
}

/// Un TLV ocupa su contenido más entre dos y seis bytes de cabecera.
pub proof fn largo_tlv(t: u8, c: Seq<u8>)
    requires
        cabe(c),
    ensures
        c.len() + 2 <= tlv_spec(t, c).len() <= c.len() + 6,
{
    cabecera_de_tlv(t, c, Seq::empty());
}

/// Los TLV escritos uno detrás de otro se leen de vuelta, en orden.
pub proof fn tlvs_se_leen(hs: Seq<(u8, Seq<u8>)>)
    requires
        forall|i: int| 0 <= i < hs.len() ==> cabe(#[trigger] hs[i].1),
    ensures
        tlvs_seguidos(tlvs_spec(hs)) == hs,
    decreases hs.len(),
{
    if hs.len() > 0 {
        let resto = tlvs_spec(hs.drop_first());
        assert forall|i: int| 0 <= i < hs.drop_first().len() implies cabe(#[trigger] hs.drop_first()[i].1) by {
            assert(hs.drop_first()[i] == hs[i + 1]);
        }
        tlvs_se_leen(hs.drop_first());
        assert(cabe(hs[0].1));
        cabecera_de_tlv(hs[0].0, hs[0].1, resto);
        assert(tlvs_spec(hs) == tlv_spec(hs[0].0, hs[0].1) + resto);
        assert(seq![(hs[0].0, hs[0].1)] + hs.drop_first() =~= hs);
    }
}

/// **Lo que se mete en un contenedor DER es lo que se lee dentro**: los
/// hijos de un TLV cuyo contenido son varios TLV seguidos son esos TLV.
pub proof fn ley_hijos_de_contenedor(t: u8, hs: Seq<(u8, Seq<u8>)>)
    requires
        forall|i: int| 0 <= i < hs.len() ==> cabe(#[trigger] hs[i].1),
        cabe(tlvs_spec(hs)),
    ensures
        hijos_spec(tlv_spec(t, tlvs_spec(hs))) == hs,
{
    let c = tlvs_spec(hs);
    cabecera_de_tlv(t, c, Seq::empty());
    assert(tlv_spec(t, c) + Seq::<u8>::empty() =~= tlv_spec(t, c));
    tlvs_se_leen(hs);
}

/// Lo que dice una cabecera cabe en los bytes que se miran.
pub proof fn cabecera_cabe(s: Seq<u8>)
    ensures
        cabecera_spec(s) is Some ==> ({
            let c = cabecera_spec(s)->Some_0;
            2 <= c.1 && c.1 + c.2 <= s.len()
        }),
{
}

/// Lo que `tlvs_seguidos` saca de un trozo son trozos suyos, así que caben
/// en una longitud de cuatro bytes.
proof fn tlvs_seguidos_caben(s: Seq<u8>)
    ensures
        forall|i: int| 0 <= i < tlvs_seguidos(s).len() ==> cabe(#[trigger] tlvs_seguidos(s)[i].1),
    decreases s.len(),
{
    if s.len() > 0 {
        match cabecera_spec(s) {
            None => {},
            Some((t, i, l)) => {
                if i >= 2 && i + l <= s.len() {
                    tlvs_seguidos_caben(s.skip((i + l) as int));
                    pot256_cuatro();
                    if s[1] >= 0x80 {
                        valor_be_acotado(s.subrange(2, 2 + (s[1] - 0x80) as int));
                        let n = (s[1] - 0x80) as nat;
                        if n < 4 {
                            pot_crece(n, 4);
                        }
                    }
                    let cab = seq![(t, s.subrange(i as int, (i + l) as int))];
                    let cola = tlvs_seguidos(s.skip((i + l) as int));
                    assert forall|k: int| 0 <= k < (cab + cola).len() implies cabe(#[trigger] (cab + cola)[k].1) by {
                        if k > 0 { assert((cab + cola)[k] == cola[k - 1]); }
                    }
                }
            },
        }
    }
}

proof fn pot_crece(a: nat, b: nat)
    requires
        a <= b,
    ensures
        pot256(a) <= pot256(b),
    decreases b,
{
    if a < b {
        pot_crece(a, (b - 1) as nat);
    }
}

/// Los hijos de cualquier contenedor caben en una longitud de cuatro bytes.
pub proof fn hijos_caben(der: Seq<u8>)
    ensures
        forall|i: int| 0 <= i < hijos_spec(der).len() ==> cabe(#[trigger] hijos_spec(der)[i].1),
{
    match cabecera_spec(der) {
        None => {},
        Some((_, ini, largo)) => { tlvs_seguidos_caben(der.subrange(ini as int, (ini + largo) as int)); },
    }
}

// ---------------------------------------------------------------------
// El código
// ---------------------------------------------------------------------

/// Los bytes big-endian de un número, sin ceros a la izquierda.
fn bytes_be_exec(n: u64) -> (v: Vec<u8>)
    ensures
        v@ == bytes_be(n as nat),
    decreases n,
{
    if n < 256 {
        let mut v = Vec::new();
        v.push(n as u8);
        v
    } else {
        let mut v = bytes_be_exec(n / 256);
        v.push((n % 256) as u8);
        v
    }
}

/// Un TLV: la etiqueta, la longitud del contenido en DER y el contenido.
pub fn tlv(etiqueta: u8, contenido: &[u8]) -> (r: Vec<u8>)
    requires
        cabe(contenido@),
    ensures
        r@ == tlv_spec(etiqueta, contenido@),
{
    let mut r: Vec<u8> = Vec::new();
    r.push(etiqueta);
    let n = contenido.len();
    if n < 128 {
        r.push(n as u8);
    } else {
        let b = bytes_be_exec(n as u64);
        proof {
            pot256_cuatro();
            bytes_be_cortos(n as nat, 4);
        }
        r.push((0x80 + b.len()) as u8);
        let mut k: usize = 0;
        while k < b.len()
            invariant
                k <= b.len(),
                r@ == seq![etiqueta] + seq![(0x80 + b@.len()) as u8] + b@.take(k as int),
            decreases b.len() - k,
        {
            r.push(b[k]);
            assert(b@.take(k as int).push(b@[k as int]) =~= b@.take(k + 1));
            k = k + 1;
        }
        assert(b@.take(b.len() as int) =~= b@);
    }
    let ghost cab = r@;
    let mut k: usize = 0;
    while k < n
        invariant
            n == contenido@.len(),
            k <= n,
            r@ == cab + contenido@.take(k as int),
        decreases n - k,
    {
        r.push(contenido[k]);
        assert(contenido@.take(k as int).push(contenido@[k as int]) =~= contenido@.take(k + 1));
        k = k + 1;
    }
    assert(contenido@.take(n as int) =~= contenido@);
    assert(r@ =~= tlv_spec(etiqueta, contenido@));
    r
}

/// ¿Son iguales los dos trozos de bytes?
pub fn mismos_bytes(a: &Vec<u8>, b: &Vec<u8>) -> (r: bool)
    ensures
        r == (a@ == b@),
{
    if a.len() != b.len() {
        return false;
    }
    let mut k: usize = 0;
    while k < a.len()
        invariant
            a.len() == b.len(),
            k <= a.len(),
            forall|j: int| 0 <= j < k ==> a@[j] == b@[j],
        decreases a.len() - k,
    {
        if a[k] != b[k] {
            return false;
        }
        k = k + 1;
    }
    assert(a@ =~= b@);
    true
}

/// Una copia del trozo `[desde, hasta)` de los bytes.
pub fn copia(s: &[u8], desde: usize, hasta: usize) -> (r: Vec<u8>)
    requires
        desde <= hasta <= s@.len(),
    ensures
        r@ == s@.subrange(desde as int, hasta as int),
{
    let mut r: Vec<u8> = Vec::new();
    let mut k = desde;
    while k < hasta
        invariant
            desde <= k <= hasta <= s@.len(),
            r@ == s@.subrange(desde as int, k as int),
        decreases hasta - k,
    {
        r.push(s[k]);
        assert(s@.subrange(desde as int, k as int).push(s@[k as int]) =~= s@.subrange(desde as int, k + 1));
        k = k + 1;
    }
    r
}

/// La cabecera del TLV que empieza en `desde`, mirando solo hasta `hasta`.
pub fn cabecera_en(der: &[u8], desde: usize, hasta: usize) -> (r: Option<(u8, usize, usize)>)
    requires
        desde <= hasta <= der@.len(),
    ensures
        match r {
            Some((t, i, l)) => cabecera_spec(der@.subrange(desde as int, hasta as int)) == Some((t, i as nat, l as nat)),
            None => cabecera_spec(der@.subrange(desde as int, hasta as int)) is None,
        },
{
    let ghost s = der@.subrange(desde as int, hasta as int);
    let len = hasta - desde;
    if len < 2 {
        return None;
    }
    let t = der[desde];
    let b = der[desde + 1];
    assert(s[0] == t && s[1] == b);
    if b < 0x80 {
        if 2 + (b as usize) <= len {
            return Some((t, 2, b as usize));
        } else {
            return None;
        }
    }
    let n = (b - 0x80) as usize;
    if n == 0 || n > 4 || len < 2 + n {
        return None;
    }
    let mut v: u64 = 0;
    let mut k: usize = 0;
    proof { pot256_cuatro(); }
    while k < n
        invariant
            s == der@.subrange(desde as int, hasta as int),
            desde + 2 + n <= hasta <= der@.len(),
            n <= 4,
            k <= n,
            v == valor_be(s.subrange(2, 2 + k)),
            v < pot256(k as nat),
            pot256(4) == 0x1_0000_0000,
        decreases n - k,
    {
        let byte = der[desde + 2 + k];
        assert(s.subrange(2, 2 + k + 1).drop_last() =~= s.subrange(2, 2 + k));
        assert(s.subrange(2, 2 + k + 1).last() == byte);
        proof { pot_crece((k + 1) as nat, 4); }
        v = v * 256 + byte as u64;
        k = k + 1;
    }
    proof { pot_crece(n as nat, 4); }
    if v > (len - 2 - n) as u64 {
        None
    } else {
        Some((t, 2 + n, v as usize))
    }
}

/// La cabecera del TLV con que empieza `der`.
pub fn cabecera(der: &[u8]) -> (r: Option<(u8, usize, usize)>)
    ensures
        match r {
            Some((t, i, l)) => cabecera_spec(der@) == Some((t, i as nat, l as nat)),
            None => cabecera_spec(der@) is None,
        },
{
    let r = cabecera_en(der, 0, der.len());
    assert(der@.subrange(0, der@.len() as int) =~= der@);
    r
}

/// Los TLV que hay dentro del contenedor con que empieza `der`, hasta el
/// primero que no se deja leer.
pub fn hijos(der: &[u8]) -> (r: Vec<(u8, Vec<u8>)>)
    ensures
        vista_tlvs(r@) == hijos_spec(der@),
{
    let mut out: Vec<(u8, Vec<u8>)> = Vec::new();
    let cab = cabecera(der);
    if cab.is_none() {
        assert(vista_tlvs(out@) =~= Seq::<(u8, Seq<u8>)>::empty());
        return out;
    }
    let (t0, ini, largo) = cab.unwrap();
    assert(cabecera_spec(der@) == Some((t0, ini as nat, largo as nat)));
    proof { cabecera_cabe(der@); }
    assert(cabecera_spec(der@)->Some_0.1 == ini);
    let total = der.len();
    assert(ini + largo <= total);
    let fin = ini + largo;
    let mut pos = ini;
    assert(der@.subrange(ini as int, fin as int).skip(0) =~= der@.subrange(ini as int, fin as int));
    loop
        invariant
            ini <= pos <= fin <= der@.len(),
            vista_tlvs(out@) + tlvs_seguidos(der@.subrange(pos as int, fin as int)) == hijos_spec(der@),
        decreases fin - pos,
    {
        let ghost resto = der@.subrange(pos as int, fin as int);
        if pos == fin {
            assert(vista_tlvs(out@) + tlvs_seguidos(resto) =~= vista_tlvs(out@));
            return out;
        }
        match cabecera_en(der, pos, fin) {
            None => {
                assert(vista_tlvs(out@) + tlvs_seguidos(resto) =~= vista_tlvs(out@));
                return out;
            },
            Some((etiqueta, i, l)) => {
                let contenido = copia(der, pos + i, pos + i + l);
                assert(resto.subrange(i as int, (i + l) as int) =~= contenido@);
                assert(resto.skip((i + l) as int) =~= der@.subrange(pos + i + l, fin as int));
                let ghost antes = vista_tlvs(out@);
                out.push((etiqueta, contenido));
                assert(vista_tlvs(out@) =~= antes.push((etiqueta, contenido@)));
                assert(antes.push((etiqueta, contenido@)) + tlvs_seguidos(der@.subrange(pos + i + l, fin as int))
                    =~= antes + tlvs_seguidos(resto));
                pos = pos + i + l;
            },
        }
    }
}

} // verus!

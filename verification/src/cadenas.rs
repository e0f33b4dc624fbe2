//! Herramientas de texto que usan los demás módulos: números en decimal,
//! búsquedas dentro de una cadena y conversión entre `String` y una lista
//! de caracteres. Todo se razona sobre la vista `Seq<char>` de la cadena.

use vstd::prelude::*;
use crate::errores::{es_espacio, espacio};

verus! {

/// `String::push` añade el carácter al final de la cadena.
pub assume_specification[ String::push ](s: &mut String, ch: char)
    ensures
        final(s)@ == old(s)@.push(ch),
;

/// El carácter de una cifra decimal.
pub open spec fn cifra(d: nat) -> char {
    if d == 0 { '0' }
    else if d == 1 { '1' }
    else if d == 2 { '2' }
    else if d == 3 { '3' }
    else if d == 4 { '4' }
    else if d == 5 { '5' }
    else if d == 6 { '6' }
    else if d == 7 { '7' }
    else if d == 8 { '8' }
    else { '9' }
}

/// Un número natural escrito en decimal, sin ceros a la izquierda.
pub open spec fn decimal_spec(n: nat) -> Seq<char>
    decreases n,
{
    if n < 10 {
        seq![cifra(n)]
    } else {
        decimal_spec(n / 10).push(cifra(n % 10))
    }
}

/// `s` rellenado con `relleno` por la izquierda hasta `ancho` caracteres.
pub open spec fn rellena_izquierda(s: Seq<char>, relleno: char, ancho: nat) -> Seq<char> {
    if s.len() >= ancho {
        s
    } else {
        Seq::new((ancho - s.len()) as nat, |_i: int| relleno) + s
    }
}

pub fn caracter_de_cifra(d: u128) -> (c: char)
    requires
        d < 10,
    ensures
        c == cifra(d as nat),
{
    if d == 0 { '0' }
    else if d == 1 { '1' }
    else if d == 2 { '2' }
    else if d == 3 { '3' }
    else if d == 4 { '4' }
    else if d == 5 { '5' }
    else if d == 6 { '6' }
    else if d == 7 { '7' }
    else if d == 8 { '8' }
    else { '9' }
}

/// Las cifras de `n`, de la más significativa a la menos.
pub fn cifras(n: u128) -> (v: Vec<char>)
    ensures
        v@ == decimal_spec(n as nat),
    decreases n,
{
    if n < 10 {
        let mut v = Vec::new();
        v.push(caracter_de_cifra(n));
        v
    } else {
        let mut v = cifras(n / 10);
        v.push(caracter_de_cifra(n % 10));
        v
    }
}

/// Una cadena con los caracteres dados, en ese orden.
pub fn cadena_de(v: &Vec<char>) -> (s: String)
    ensures
        s@ == v@,
{
    let mut s = String::new();
    let mut i: usize = 0;
    while i < v.len()
        invariant
            i <= v.len(),
            s@ == v@.take(i as int),
        decreases v.len() - i,
    {
        s.push(v[i]);
        assert(v@.take(i as int).push(v@[i as int]) =~= v@.take(i + 1));
        i = i + 1;
    }
    assert(v@.take(v.len() as int) =~= v@);
    s
}

/// Los caracteres de una cadena, en una lista.
pub fn caracteres(s: &str) -> (v: Vec<char>)
    ensures
        v@ == s@,
{
    let n = s.unicode_len();
    let mut v: Vec<char> = Vec::new();
    let mut i: usize = 0;
    while i < n
        invariant
            n == s@.len(),
            i <= n,
            v@ == s@.take(i as int),
        decreases n - i,
    {
        let c = s.get_char(i);
        v.push(c);
        assert(s@.take(i as int).push(c) =~= s@.take(i + 1));
        i = i + 1;
    }
    assert(s@.take(n as int) =~= s@);
    v
}

/// Un número en decimal.
pub fn decimal(n: u64) -> (s: String)
    ensures
        s@ == decimal_spec(n as nat),
{
    let v = cifras(n as u128);
    cadena_de(&v)
}

/// Un número grande en decimal.
pub fn decimal_largo(n: u128) -> (s: String)
    ensures
        s@ == decimal_spec(n as nat),
{
    let v = cifras(n);
    cadena_de(&v)
}

/// `a` seguida de `b`.
pub fn une(a: &str, b: &str) -> (s: String)
    ensures
        s@ == a@ + b@,
{
    let mut s = String::from_str(a);
    s.append(b);
    s
}

/// ¿Empieza `s` por `p`?
pub open spec fn empieza_por(s: Seq<char>, p: Seq<char>) -> bool {
    p.len() <= s.len() && s.take(p.len() as int) == p
}

/// ¿Acaba `s` en `p`?
pub open spec fn acaba_en(s: Seq<char>, p: Seq<char>) -> bool {
    p.len() <= s.len() && s.skip(s.len() - p.len()) == p
}

/// ¿Aparece `a` en `s` empezando en la posición `i`?
pub open spec fn esta_en(s: Seq<char>, a: Seq<char>, i: int) -> bool {
    0 <= i && i + a.len() <= s.len() && s.subrange(i, i + a.len()) == a
}

/// ¿Aparece `a` dentro de `s`?
pub open spec fn contiene(s: Seq<char>, a: Seq<char>) -> bool {
    exists|i: int| esta_en(s, a, i)
}

/// Compara `a` con el trozo de `s` que empieza en `desde`.
pub fn coincide_en(s: &Vec<char>, a: &Vec<char>, desde: usize) -> (r: bool)
    requires
        desde + a.len() <= s.len(),
    ensures
        r == (s@.subrange(desde as int, desde + a.len()) == a@),
{
    let mut j: usize = 0;
    while j < a.len()
        invariant
            desde + a.len() <= s.len(),
            j <= a.len(),
            forall|k: int| 0 <= k < j ==> s@[desde + k] == a@[k],
        decreases a.len() - j,
    {
        if s[desde + j] != a[j] {
            assert(s@.subrange(desde as int, desde + a.len())[j as int] != a@[j as int]);
            return false;
        }
        j = j + 1;
    }
    assert(s@.subrange(desde as int, desde + a.len()) =~= a@);
    true
}

/// La primera posición en la que aparece `a` dentro de `s`, si aparece.
pub fn busca(s: &Vec<char>, a: &Vec<char>) -> (r: Option<usize>)
    ensures
        match r {
            Some(i) => esta_en(s@, a@, i as int) && forall|k: int| 0 <= k < i ==> !esta_en(s@, a@, k),
            None => !contiene(s@, a@),
        },
{
    if a.len() > s.len() {
        return None;
    }
    let tope = s.len() - a.len();
    let mut i: usize = 0;
    loop
        invariant
            tope + a.len() == s.len(),
            i <= tope,
            forall|k: int| 0 <= k < i ==> !esta_en(s@, a@, k),
        decreases tope - i,
    {
        if coincide_en(s, a, i) {
            return Some(i);
        }
        if i == tope {
            assert forall|k: int| esta_en(s@, a@, k) implies false by {
                assert(k <= tope);
            }
            return None;
        }
        i = i + 1;
    }
}

/// ¿Aparece el texto `a` dentro de `s`?
pub fn tiene(s: &Vec<char>, a: &str) -> (r: bool)
    ensures
        r == contiene(s@, a@),
{
    let av = caracteres(a);
    busca(s, &av).is_some()
}

} // verus!

verus! {

/// ¿Dicen lo mismo los dos textos?
pub fn mismo_texto(a: &str, b: &str) -> (r: bool)
    ensures
        r == (a@ == b@),
{
    let x = caracteres(a);
    let y = caracteres(b);
    if x.len() != y.len() {
        return false;
    }
    let mut k: usize = 0;
    while k < x.len()
        invariant
            x@ == a@,
            y@ == b@,
            x.len() == y.len(),
            k <= x.len(),
            forall|j: int| 0 <= j < k ==> x@[j] == y@[j],
        decreases x.len() - k,
    {
        if x[k] != y[k] {
            return false;
        }
        k = k + 1;
    }
    assert(x@ =~= y@);
    true
}

} // verus!

verus! {

/// `s` sin los espacios en blanco del principio.
pub open spec fn sin_espacios_delante(s: Seq<char>) -> Seq<char>
    decreases s.len(),
{
    if s.len() > 0 && es_espacio(s[0]) {
        sin_espacios_delante(s.drop_first())
    } else {
        s
    }
}

/// `s` sin los espacios en blanco del final.
pub open spec fn sin_espacios_detras(s: Seq<char>) -> Seq<char>
    decreases s.len(),
{
    if s.len() > 0 && es_espacio(s.last()) {
        sin_espacios_detras(s.drop_last())
    } else {
        s
    }
}

/// `s` sin espacios en blanco a los lados (`str::trim`).
pub open spec fn recortado(s: Seq<char>) -> Seq<char> {
    sin_espacios_detras(sin_espacios_delante(s))
}

/// El texto sin los espacios en blanco de los lados.
pub fn recorta(s: &str) -> (r: String)
    ensures
        r@ == recortado(s@),
{
    let v = caracteres(s);
    let n = v.len();
    let mut i: usize = 0;
    assert(s@.subrange(0, n as int) =~= s@);
    while i < n && espacio(v[i])
        invariant
            v@ == s@,
            n == v.len(),
            i <= n,
            sin_espacios_delante(s@) == sin_espacios_delante(s@.subrange(i as int, n as int)),
        decreases n - i,
    {
        assert(s@.subrange(i as int, n as int).drop_first() =~= s@.subrange(i + 1, n as int));
        i = i + 1;
    }
    let ghost delante = s@.subrange(i as int, n as int);
    assert(sin_espacios_delante(s@) == delante);
    let mut j: usize = n;
    while j > i && espacio(v[j - 1])
        invariant
            v@ == s@,
            n == v.len(),
            i <= j <= n,
            delante == s@.subrange(i as int, n as int),
            sin_espacios_detras(delante) == sin_espacios_detras(s@.subrange(i as int, j as int)),
        decreases j - i,
    {
        assert(s@.subrange(i as int, j as int).drop_last() =~= s@.subrange(i as int, j - 1));
        j = j - 1;
    }
    let mut r: Vec<char> = Vec::new();
    let mut k: usize = i;
    while k < j
        invariant
            v@ == s@,
            n == v.len(),
            i <= k <= j <= n,
            r@ == s@.subrange(i as int, k as int),
        decreases j - k,
    {
        r.push(v[k]);
        assert(s@.subrange(i as int, k as int).push(s@[k as int]) =~= s@.subrange(i as int, k + 1));
        k = k + 1;
    }
    cadena_de(&r)
}

/// ¿Empieza el texto `s` por `p`?
pub fn empieza(s: &str, p: &str) -> (r: bool)
    ensures
        r == empieza_por(s@, p@),
{
    let sv = caracteres(s);
    let pv = caracteres(p);
    if pv.len() > sv.len() {
        return false;
    }
    let r = coincide_en(&sv, &pv, 0);
    assert(s@.subrange(0, p@.len() as int) =~= s@.take(p@.len() as int));
    r
}

/// ¿Acaba el texto `s` en `p`?
pub fn acaba(s: &str, p: &str) -> (r: bool)
    ensures
        r == acaba_en(s@, p@),
{
    let sv = caracteres(s);
    let pv = caracteres(p);
    if pv.len() > sv.len() {
        return false;
    }
    let desde = sv.len() - pv.len();
    let r = coincide_en(&sv, &pv, desde);
    assert(s@.subrange(desde as int, s@.len() as int) =~= s@.skip(desde as int));
    r
}

/// ¿Aparece el texto `a` dentro del texto `s`?
pub fn contiene_texto(s: &str, a: &str) -> (r: bool)
    ensures
        r == contiene(s@, a@),
{
    let sv = caracteres(s);
    tiene(&sv, a)
}

/// El texto en minúsculas según Unicode (`str::to_lowercase`).
pub uninterp spec fn minusculas(s: Seq<char>) -> Seq<char>;

/// `str::to_lowercase`. Promete solo que su resultado es el que nombra
/// `minusculas`: la tabla de minúsculas de Unicode no se escribe aquí.
#[verifier::external_body]
pub(crate) fn en_minusculas(s: &str) -> (r: String)
    ensures
        r@ == minusculas(s@),
{
    s.to_lowercase()
}

} // verus!

//! Formularios y enlaces: el nombre que se le da a un campo a partir del
//! texto que tiene al lado, cómo se desempatan los nombres repetidos y qué
//! enlaces web se admiten.

use vstd::prelude::*;
use crate::cadenas::{cadena_de, caracteres, decimal_largo, decimal_spec, en_minusculas, minusculas,
    mismo_texto, recorta, recortado, une};

verus! {

// ---------------------------------------------------------------------
// Enlaces
// ---------------------------------------------------------------------

/// ¿Lleva `s` el carácter `c`?
pub open spec fn lleva(s: Seq<char>, c: char) -> bool {
    exists|i: int| 0 <= i < s.len() && s[i] == c
}

/// Lo que va antes del primer `:` (todo, si no hay).
pub open spec fn antes_de_dos_puntos(s: Seq<char>) -> Seq<char>
    decreases s.len(),
{
    if s.len() == 0 || s[0] == ':' {
        Seq::empty()
    } else {
        seq![s[0]] + antes_de_dos_puntos(s.drop_first())
    }
}

/// La minúscula de una letra ASCII; lo demás queda igual.
pub open spec fn minuscula_ascii(c: char) -> char {
    if 'A' <= c <= 'Z' { ((c as u32) + 32) as char } else { c }
}

/// El texto con las letras ASCII en minúscula (`to_ascii_lowercase`).
pub open spec fn minusculas_ascii(s: Seq<char>) -> Seq<char> {
    s.map_values(|c: char| minuscula_ascii(c))
}

/// El enlace con esquema: si no lleva `:`, se le pone `https://` delante.
pub open spec fn con_esquema(u: Seq<char>) -> Seq<char> {
    let t = recortado(u);
    if lleva(t, ':') { t } else { "https://"@ + t }
}

/// El esquema del enlace, en minúsculas.
pub open spec fn esquema_de(u: Seq<char>) -> Seq<char> {
    minusculas_ascii(antes_de_dos_puntos(con_esquema(u)))
}

/// ¿Es un esquema que se admite?
pub open spec fn esquema_admitido(e: Seq<char>) -> bool {
    e == "http"@ || e == "https"@ || e == "mailto"@
}

fn minuscula_ascii_exec(c: char) -> (r: char)
    ensures
        r == minuscula_ascii(c),
{
    if 'A' <= c && c <= 'Z' {
        let m = ((c as u32) + 32) as u8;
        m as char
    } else {
        c
    }
}

/// El esquema de un enlace (lo que va antes del primer `:`), en minúsculas.
fn esquema(s: &Vec<char>) -> (r: String)
    ensures
        r@ == minusculas_ascii(antes_de_dos_puntos(s@)),
{
    let mut v: Vec<char> = Vec::new();
    let mut i: usize = 0;
    assert(s@.skip(0) =~= s@);
    assert(s@.take(0) + antes_de_dos_puntos(s@) =~= antes_de_dos_puntos(s@));
    assert(minusculas_ascii(s@.take(0)) =~= v@);
    while i < s.len() && s[i] != ':'
        invariant
            i <= s.len(),
            forall|k: int| 0 <= k < i ==> s@[k] != ':',
            v@ == minusculas_ascii(s@.take(i as int)),
            antes_de_dos_puntos(s@) == s@.take(i as int) + antes_de_dos_puntos(s@.skip(i as int)),
        decreases s.len() - i,
    {
        v.push(minuscula_ascii_exec(s[i]));
        proof {
            assert(s@.skip(i as int).drop_first() =~= s@.skip(i + 1));
            assert(s@.take(i + 1) =~= s@.take(i as int) + seq![s@[i as int]]);
            assert(s@.take(i as int) + antes_de_dos_puntos(s@.skip(i as int))
                =~= s@.take(i + 1) + antes_de_dos_puntos(s@.skip(i + 1)));
        }
        assert(v@ =~= minusculas_ascii(s@.take(i + 1)));
        i = i + 1;
    }
    proof {
        assert(s@.take(0) =~= Seq::<char>::empty());
        assert(antes_de_dos_puntos(s@.skip(i as int)) =~= Seq::<char>::empty());
        assert(s@.take(i as int) + Seq::<char>::empty() =~= s@.take(i as int));
    }
    cadena_de(&v)
}

/// Solo se escriben enlaces web y de correo; sin esquema se asume https.
pub fn normaliza_uri(u: &str) -> (r: Result<String, String>)
    ensures
        esquema_admitido(esquema_de(u@)) ==> (r matches Ok(s) && s@ == con_esquema(u@)),
        !esquema_admitido(esquema_de(u@)) ==> (r matches Err(m) && m@
            == "Solo se admiten enlaces http, https o mailto (no «"@ + esquema_de(u@) + "»)"@),
{
    let t = recorta(u);
    let tv = caracteres(t.as_str());
    let mut tiene_dos_puntos = false;
    let mut i: usize = 0;
    while i < tv.len()
        invariant
            i <= tv.len(),
            tiene_dos_puntos == exists|k: int| 0 <= k < i && tv@[k] == ':',
        decreases tv.len() - i,
    {
        if tv[i] == ':' {
            tiene_dos_puntos = true;
        }
        i = i + 1;
    }
    let completo = if tiene_dos_puntos { t } else { une("https://", t.as_str()) };
    let cv = caracteres(completo.as_str());
    let e = esquema(&cv);
    proof {
        reveal_strlit("http");
        reveal_strlit("https");
        reveal_strlit("mailto");
    }
    if mismo_texto(e.as_str(), "http") || mismo_texto(e.as_str(), "https") || mismo_texto(e.as_str(), "mailto") {
        Ok(completo)
    } else {
        let a = une("Solo se admiten enlaces http, https o mailto (no «", e.as_str());
        Err(une(a.as_str(), "»)"))
    }
}

// ---------------------------------------------------------------------
// Nombres de campo
// ---------------------------------------------------------------------

/// La letra sin tilde (ni diéresis, ni eñe, ni cedilla).
pub open spec fn sin_tilde_spec(c: char) -> char {
    if c == 'á' || c == 'à' || c == 'ä' || c == 'â' { 'a' }
    else if c == 'é' || c == 'è' || c == 'ë' || c == 'ê' { 'e' }
    else if c == 'í' || c == 'ì' || c == 'ï' || c == 'î' { 'i' }
    else if c == 'ó' || c == 'ò' || c == 'ö' || c == 'ô' { 'o' }
    else if c == 'ú' || c == 'ù' || c == 'ü' || c == 'û' { 'u' }
    else if c == 'ñ' { 'n' }
    else if c == 'ç' { 'c' }
    else { c }
}

pub fn sin_tilde(c: char) -> (r: char)
    ensures
        r == sin_tilde_spec(c),
{
    if c == 'á' || c == 'à' || c == 'ä' || c == 'â' { 'a' }
    else if c == 'é' || c == 'è' || c == 'ë' || c == 'ê' { 'e' }
    else if c == 'í' || c == 'ì' || c == 'ï' || c == 'î' { 'i' }
    else if c == 'ó' || c == 'ò' || c == 'ö' || c == 'ô' { 'o' }
    else if c == 'ú' || c == 'ù' || c == 'ü' || c == 'û' { 'u' }
    else if c == 'ñ' { 'n' }
    else if c == 'ç' { 'c' }
    else { c }
}

/// **Ninguna letra se pierde por llevar tilde**: cada vocal con tilde,
/// grave, diéresis o circunflejo da su vocal sin marca, la eñe da `n` y la
/// cedilla `c`; así que, después de quitar las tildes, un carácter es una
/// letra o una cifra ASCII justo cuando ya lo era o era una de esas letras,
/// y el nombre del campo no la cambia por `_`.
pub proof fn ley_sin_tilde(c: char)
    ensures
        (c == 'á' || c == 'à' || c == 'ä' || c == 'â') ==> sin_tilde_spec(c) == 'a',
        (c == 'é' || c == 'è' || c == 'ë' || c == 'ê') ==> sin_tilde_spec(c) == 'e',
        (c == 'í' || c == 'ì' || c == 'ï' || c == 'î') ==> sin_tilde_spec(c) == 'i',
        (c == 'ó' || c == 'ò' || c == 'ö' || c == 'ô') ==> sin_tilde_spec(c) == 'o',
        (c == 'ú' || c == 'ù' || c == 'ü' || c == 'û') ==> sin_tilde_spec(c) == 'u',
        c == 'ñ' ==> sin_tilde_spec(c) == 'n',
        c == 'ç' ==> sin_tilde_spec(c) == 'c',
        alfanumerico(sin_tilde_spec(c)) <==> (alfanumerico(c)
            || c == 'á' || c == 'à' || c == 'ä' || c == 'â' || c == 'é' || c == 'è' || c == 'ë' || c == 'ê'
            || c == 'í' || c == 'ì' || c == 'ï' || c == 'î' || c == 'ó' || c == 'ò' || c == 'ö' || c == 'ô'
            || c == 'ú' || c == 'ù' || c == 'ü' || c == 'û' || c == 'ñ' || c == 'ç'),
        alfanumerico(c) ==> sin_tilde_spec(c) == c,
{
}

/// ¿Es uno de los signos que se quitan del final de un rótulo?
pub open spec fn signo_final(c: char) -> bool {
    c == ':' || c == '.' || c == '·' || c == '-' || c == '—' || c == ' '
}

/// El rótulo sin los signos del final (`trim_end_matches`).
pub open spec fn sin_signos_finales(s: Seq<char>) -> Seq<char>
    decreases s.len(),
{
    if s.len() > 0 && signo_final(s.last()) { sin_signos_finales(s.drop_last()) } else { s }
}

/// ¿Es una letra o una cifra ASCII?
pub open spec fn alfanumerico(c: char) -> bool {
    ('a' <= c <= 'z') || ('A' <= c <= 'Z') || ('0' <= c <= '9')
}

/// El texto con cada tramo de caracteres que no son letras ni cifras
/// cambiado por un solo `_`.
pub open spec fn con_guiones(s: Seq<char>) -> Seq<char>
    decreases s.len(),
{
    if s.len() == 0 {
        Seq::empty()
    } else {
        let o = con_guiones(s.drop_last());
        let c = s.last();
        if alfanumerico(c) { o.push(c) }
        else if o.len() > 0 && o.last() == '_' { o }
        else { o.push('_') }
    }
}

/// El texto sin `_` al principio.
pub open spec fn sin_guion_delante(s: Seq<char>) -> Seq<char>
    decreases s.len(),
{
    if s.len() > 0 && s[0] == '_' { sin_guion_delante(s.drop_first()) } else { s }
}

/// El texto sin `_` al final.
pub open spec fn sin_guion_detras(s: Seq<char>) -> Seq<char>
    decreases s.len(),
{
    if s.len() > 0 && s.last() == '_' { sin_guion_detras(s.drop_last()) } else { s }
}

/// El nombre de un campo a partir del texto de al lado: sin espacios ni
/// signos al final, en minúsculas y sin tildes, con cada tramo que no es
/// letra ni cifra cambiado por `_`, sin `_` a los lados, de 40 caracteres
/// como mucho; si no queda nada, `campo`.
pub open spec fn nombre_de_campo_spec(texto: Seq<char>) -> Seq<char> {
    let limpio = minusculas(recortado(sin_signos_finales(recortado(texto)))).map_values(|c: char| sin_tilde_spec(c));
    let g = sin_guion_detras(sin_guion_delante(con_guiones(limpio)));
    let corto = if g.len() <= 40 { g } else { g.take(40) };
    if corto.len() == 0 { "campo"@ } else { corto }
}

fn quita_signos_finales(s: &Vec<char>) -> (r: Vec<char>)
    ensures
        r@ == sin_signos_finales(s@),
{
    let mut n = s.len();
    assert(s@.take(n as int) =~= s@);
    while n > 0 && (s[n - 1] == ':' || s[n - 1] == '.' || s[n - 1] == '·' || s[n - 1] == '-' || s[n - 1] == '—' || s[n - 1] == ' ')
        invariant
            n <= s.len(),
            sin_signos_finales(s@) == sin_signos_finales(s@.take(n as int)),
        decreases n,
    {
        assert(s@.take(n as int).drop_last() =~= s@.take(n - 1));
        n = n - 1;
    }
    let mut r: Vec<char> = Vec::new();
    let mut k: usize = 0;
    while k < n
        invariant
            k <= n <= s.len(),
            r@ == s@.take(k as int),
        decreases n - k,
    {
        r.push(s[k]);
        assert(r@ =~= s@.take(k + 1));
        k = k + 1;
    }
    assert(s@.take(s.len() as int) =~= s@);
    r
}

pub fn nombre_de_campo(texto: &str) -> (r: String)
    ensures
        r@ == nombre_de_campo_spec(texto@),
{
    let a = recorta(texto);
    let av = caracteres(a.as_str());
    let b = quita_signos_finales(&av);
    let bs = cadena_de(&b);
    let c = recorta(bs.as_str());
    let d = en_minusculas(c.as_str());
    let dv = caracteres(d.as_str());
    let ghost limpio = dv@.map_values(|c: char| sin_tilde_spec(c));
    // con guiones
    let mut g: Vec<char> = Vec::new();
    let mut i: usize = 0;
    while i < dv.len()
        invariant
            i <= dv.len(),
            limpio == dv@.map_values(|c: char| sin_tilde_spec(c)),
            g@ == con_guiones(limpio.take(i as int)),
        decreases dv.len() - i,
    {
        let c = sin_tilde(dv[i]);
        proof {
            assert(limpio.take(i + 1).drop_last() =~= limpio.take(i as int));
            assert(limpio.take(i + 1).last() == c);
        }
        if ('a' <= c && c <= 'z') || ('A' <= c && c <= 'Z') || ('0' <= c && c <= '9') {
            g.push(c);
        } else if g.len() > 0 && g[g.len() - 1] == '_' {
        } else {
            g.push('_');
        }
        i = i + 1;
    }
    assert(limpio.take(dv.len() as int) =~= limpio);
    // sin guiones a los lados
    let mut ini: usize = 0;
    assert(g@.skip(0) =~= g@);
    while ini < g.len() && g[ini] == '_'
        invariant
            ini <= g.len(),
            sin_guion_delante(g@) == sin_guion_delante(g@.skip(ini as int)),
        decreases g.len() - ini,
    {
        assert(g@.skip(ini as int).drop_first() =~= g@.skip(ini + 1));
        ini = ini + 1;
    }
    let ghost delante = g@.skip(ini as int);
    assert(sin_guion_delante(g@) == delante);
    let mut fin: usize = g.len();
    while fin > ini && g[fin - 1] == '_'
        invariant
            ini <= fin <= g.len(),
            delante == g@.skip(ini as int),
            sin_guion_detras(delante) == sin_guion_detras(g@.subrange(ini as int, fin as int)),
        decreases fin,
    {
        assert(g@.subrange(ini as int, fin as int).drop_last() =~= g@.subrange(ini as int, fin - 1));
        fin = fin - 1;
    }
    assert(g@.subrange(ini as int, g.len() as int) =~= delante);
    let ghost limpia = g@.subrange(ini as int, fin as int);
    assert(sin_guion_detras(limpia) == limpia);
    // como mucho 40
    let tope = if fin - ini <= 40 { fin } else { ini + 40 };
    let mut out: Vec<char> = Vec::new();
    let mut k: usize = ini;
    while k < tope
        invariant
            ini <= k <= tope <= fin <= g.len(),
            out@ == g@.subrange(ini as int, k as int),
        decreases tope - k,
    {
        out.push(g[k]);
        assert(out@ =~= g@.subrange(ini as int, k + 1));
        k = k + 1;
    }
    proof {
        if limpia.len() > 40 {
            assert(out@ =~= limpia.take(40));
        } else {
            assert(out@ =~= limpia);
        }
    }
    if out.len() == 0 {
        String::from_str("campo")
    } else {
        cadena_de(&out)
    }
}

// ---------------------------------------------------------------------
// Nombres únicos
// ---------------------------------------------------------------------

/// El `m`-ésimo nombre que se prueba para `base` con el separador `sep`:
/// `base`, `base<sep>2`, `base<sep>3`…
pub open spec fn candidato(base: Seq<char>, sep: Seq<char>, m: nat) -> Seq<char> {
    if m <= 1 { base } else { base + sep + decimal_spec(m) }
}

/// ¿Es `r` el primer candidato de `base` con `sep` que no está en `usados`?
pub open spec fn primer_libre(r: Seq<char>, base: Seq<char>, sep: Seq<char>, usados: Seq<Seq<char>>) -> bool {
    &&& !usados.contains(r)
    &&& exists|m: nat| 1 <= m && r == candidato(base, sep, m)
            && forall|k: nat| 1 <= k < m ==> usados.contains(#[trigger] candidato(base, sep, k))
}

/// Los textos de una lista de cadenas.
pub open spec fn nombres(v: Seq<String>) -> Seq<Seq<char>> {
    v.map_values(|s: String| s@)
}

proof fn cifra_inyectiva(a: nat, b: nat)
    requires
        a < 10,
        b < 10,
        crate::cadenas::cifra(a) == crate::cadenas::cifra(b),
    ensures
        a == b,
{
}

proof fn largo_decimal(n: nat)
    ensures
        decimal_spec(n).len() >= 1,
        decimal_spec(n).len() == 1 <==> n < 10,
    decreases n,
{
    if n >= 10 {
        largo_decimal(n / 10);
    }
}

/// Dos números distintos se escriben distinto.
proof fn decimal_inyectivo(a: nat, b: nat)
    requires
        decimal_spec(a) == decimal_spec(b),
    ensures
        a == b,
    decreases a,
{
    largo_decimal(a);
    largo_decimal(b);
    if a < 10 && b < 10 {
        assert(decimal_spec(a) == seq![crate::cadenas::cifra(a)]);
        assert(decimal_spec(b) == seq![crate::cadenas::cifra(b)]);
        assert(seq![crate::cadenas::cifra(a)][0] == crate::cadenas::cifra(a));
        assert(seq![crate::cadenas::cifra(b)][0] == crate::cadenas::cifra(b));
        cifra_inyectiva(a, b);
    } else if a >= 10 && b >= 10 {
        let da = decimal_spec(a);
        let db = decimal_spec(b);
        assert(da.last() == db.last());
        cifra_inyectiva(a % 10, b % 10);
        assert(da.drop_last() =~= decimal_spec(a / 10));
        assert(db.drop_last() =~= decimal_spec(b / 10));
        decimal_inyectivo(a / 10, b / 10);
    }
}

/// Dos candidatos distintos son nombres distintos.
proof fn candidatos_distintos(base: Seq<char>, sep: Seq<char>, a: nat, b: nat)
    requires
        1 <= a,
        1 <= b,
        a != b,
    ensures
        candidato(base, sep, a) != candidato(base, sep, b),
{
    largo_decimal(a);
    largo_decimal(b);
    if a > 1 && b > 1 {
        if candidato(base, sep, a) == candidato(base, sep, b) {
            let n: int = base.len() as int + sep.len() as int;
            assert(candidato(base, sep, a).skip(n) =~= decimal_spec(a));
            assert(candidato(base, sep, b).skip(n) =~= decimal_spec(b));
            decimal_inyectivo(a, b);
        }
    } else if a == 1 {
        assert(candidato(base, sep, b).len() > base.len());
    } else {
        assert(candidato(base, sep, a).len() > base.len());
    }
}

/// Si los `m` primeros candidatos están todos usados, hay al menos `m`
/// nombres usados.
proof fn usados_de_sobra(base: Seq<char>, sep: Seq<char>, usados: Seq<Seq<char>>, m: nat)
    requires
        forall|k: nat| 1 <= k <= m ==> usados.contains(#[trigger] candidato(base, sep, k)),
    ensures
        m <= usados.len(),
{
    let cands = Seq::new(m, |k: int| candidato(base, sep, (k + 1) as nat));
    assert(cands.no_duplicates()) by {
        assert forall|i: int, j: int| 0 <= i < cands.len() && 0 <= j < cands.len() && i != j
            implies cands[i] != cands[j] by {
            candidatos_distintos(base, sep, (i + 1) as nat, (j + 1) as nat);
        }
    }
    cands.unique_seq_to_set();
    assert(cands.to_set().subset_of(usados.to_set())) by {
        assert forall|x: Seq<char>| cands.to_set().contains(x) implies usados.to_set().contains(x) by {
            let k = choose|k: int| 0 <= k < cands.len() && cands[k] == x;
            assert(usados.contains(candidato(base, sep, (k + 1) as nat)));
        }
    }
    usados.lemma_cardinality_of_set();
    vstd::set_lib::lemma_len_subset(cands.to_set(), usados.to_set());
}

/// ¿Está el nombre entre los usados?
fn esta_usado(usados: &Vec<String>, nombre: &str) -> (r: bool)
    ensures
        r == nombres(usados@).contains(nombre@),
{
    let mut i: usize = 0;
    while i < usados.len()
        invariant
            i <= usados.len(),
            forall|k: int| 0 <= k < i ==> usados@[k]@ != nombre@,
        decreases usados.len() - i,
    {
        if mismo_texto(usados[i].as_str(), nombre) {
            assert(nombres(usados@)[i as int] == nombre@);
            return true;
        }
        i = i + 1;
    }
    assert forall|k: int| 0 <= k < nombres(usados@).len() implies nombres(usados@)[k] != nombre@ by {
        assert(nombres(usados@)[k] == usados@[k]@);
    }
    false
}

/// El primero de `base`, `base<sep>2`, `base<sep>3`… que no esté usado.
/// Lo apunta entre los usados y lo devuelve.
pub fn primer_nombre_libre(base: &str, sep: &str, usados: &mut Vec<String>) -> (r: String)
    ensures
        primer_libre(r@, base@, sep@, nombres(old(usados)@)),
        nombres(final(usados)@) == nombres(old(usados)@).push(r@),
{
    let ghost antes = nombres(usados@);
    let mut nombre = String::from_str(base);
    let mut n: u128 = 2;
    while esta_usado(usados, nombre.as_str())
        invariant
            antes == nombres(usados@),
            2 <= n <= usados.len() + 2,
            nombre@ == candidato(base@, sep@, (n - 1) as nat),
            forall|k: nat| 1 <= k < n - 1 ==> antes.contains(#[trigger] candidato(base@, sep@, k)),
        decreases usados.len() + 2 - n,
    {
        proof {
            assert forall|k: nat| 1 <= k <= (n - 1) as nat implies antes.contains(#[trigger] candidato(base@, sep@, k)) by {
                if k == n - 1 {
                    assert(candidato(base@, sep@, k) == nombre@);
                }
            }
            usados_de_sobra(base@, sep@, antes, (n - 1) as nat);
        }
        let num = decimal_largo(n);
        let a = une(base, sep);
        nombre = une(a.as_str(), num.as_str());
        n = n + 1;
    }
    let ghost m = (n - 1) as nat;
    usados.push(nombre.clone());
    assert(nombres(usados@) =~= antes.push(nombre@));
    assert(1 <= m && nombre@ == candidato(base@, sep@, m)
        && forall|k: nat| 1 <= k < m ==> antes.contains(#[trigger] candidato(base@, sep@, k)));
    nombre
}

/// Desempata los nombres de campo repetidos: `nombre`, `nombre_2`,
/// `nombre_3`…
pub fn unico(base: &str, usados: &mut Vec<String>) -> (r: String)
    ensures
        primer_libre(r@, base@, "_"@, nombres(old(usados)@)),
        nombres(final(usados)@) == nombres(old(usados)@).push(r@),
{
    primer_nombre_libre(base, "_", usados)
}

/// Cada nombre que da `unico` es nuevo: no estaba entre los usados y, una
/// vez apuntado, sale una sola vez.
pub proof fn ley_unico(usados: Seq<Seq<char>>, r: Seq<char>)
    requires
        !usados.contains(r),
        usados.no_duplicates(),
    ensures
        usados.push(r).no_duplicates(),
{
    assert forall|i: int, j: int| 0 <= i < usados.push(r).len() && 0 <= j < usados.push(r).len() && i != j
        implies usados.push(r)[i] != usados.push(r)[j] by {
        if i == usados.len() as int {
            assert(usados[j] == usados.push(r)[j]);
        } else if j == usados.len() as int {
            assert(usados[i] == usados.push(r)[i]);
        }
    }
}

// ---------------------------------------------------------------------
// El árbol de campos
// ---------------------------------------------------------------------

/// Los nombres de los niveles, de la raíz al widget, unidos con puntos y
/// sin los vacíos: el nombre completo de un campo, como lo escribe la
/// norma y como lo leen los demás programas.
pub open spec fn unidos_con_puntos(partes: Seq<Seq<char>>) -> Seq<char>
    decreases partes.len(),
{
    if partes.len() == 0 {
        Seq::empty()
    } else {
        let previo = unidos_con_puntos(partes.drop_last());
        let p = partes.last();
        if p.len() == 0 { previo } else if previo.len() == 0 { p } else { previo + "."@ + p }
    }
}

/// El nombre completo de un campo a partir de los nombres de sus niveles.
pub fn nombre_completo(partes: &Vec<String>) -> (r: String)
    ensures
        r@ == unidos_con_puntos(nombres(partes@)),
{
    let ghost l = nombres(partes@);
    let mut r = String::new();
    let mut i: usize = 0;
    while i < partes.len()
        invariant
            l == nombres(partes@),
            i <= partes.len(),
            r@ == unidos_con_puntos(l.take(i as int)),
        decreases partes.len() - i,
    {
        let p = partes[i].as_str();
        proof {
            assert(l.take(i + 1).drop_last() =~= l.take(i as int));
            assert(l.take(i + 1).last() == p@);
        }
        if p.is_empty() {
        } else if r.as_str().is_empty() {
            r = String::from_str(p);
        } else {
            let a = une(r.as_str(), ".");
            r = une(a.as_str(), p);
        }
        i = i + 1;
    }
    assert(l.take(partes.len() as int) =~= l);
    r
}

/// El nombre de un nivel del árbol: el del padre y el propio unidos con un
/// punto; si falta uno, el otro.
pub fn nombre_de_nivel(prefijo: &str, propio: &str) -> (r: String)
    ensures
        r@ == unidos_con_puntos(seq![prefijo@, propio@]),
{
    proof {
        assert(seq![prefijo@, propio@].drop_last() =~= seq![prefijo@]);
        assert(seq![prefijo@].drop_last() =~= Seq::<Seq<char>>::empty());
        assert(unidos_con_puntos(Seq::<Seq<char>>::empty()) == Seq::<char>::empty());
        assert(unidos_con_puntos(seq![prefijo@]) == prefijo@);
    }
    if propio.is_empty() {
        String::from_str(prefijo)
    } else if prefijo.is_empty() {
        String::from_str(propio)
    } else {
        let a = une(prefijo, ".");
        une(a.as_str(), propio)
    }
}

/// El valor de un campo tal como va en un XFDF: el de un botón es un
/// nombre y va sin las barras de delante; el de texto va como está.
pub open spec fn sin_barras_delante(s: Seq<char>) -> Seq<char>
    decreases s.len(),
{
    if s.len() > 0 && s[0] == '/' { sin_barras_delante(s.drop_first()) } else { s }
}

pub fn valor_para_xfdf(valor: &str, es_boton: bool) -> (r: String)
    ensures
        es_boton ==> r@ == sin_barras_delante(valor@),
        !es_boton ==> r@ == valor@,
{
    if !es_boton {
        return String::from_str(valor);
    }
    let v = caracteres(valor);
    let mut i: usize = 0;
    assert(valor@.skip(0) =~= valor@);
    while i < v.len() && v[i] == '/'
        invariant
            v@ == valor@,
            i <= v.len(),
            sin_barras_delante(valor@) == sin_barras_delante(valor@.skip(i as int)),
        decreases v.len() - i,
    {
        assert(valor@.skip(i as int).drop_first() =~= valor@.skip(i + 1));
        i = i + 1;
    }
    let mut r: Vec<char> = Vec::new();
    let mut k: usize = i;
    while k < v.len()
        invariant
            v@ == valor@,
            i <= k <= v.len(),
            r@ == valor@.subrange(i as int, k as int),
        decreases v.len() - k,
    {
        r.push(v[k]);
        assert(r@ =~= valor@.subrange(i as int, k + 1));
        k = k + 1;
    }
    assert(valor@.subrange(i as int, v.len() as int) =~= valor@.skip(i as int));
    cadena_de(&r)
}

/// Un objeto del documento: su número y su generación.
pub type Referencia = (u32, u16);

/// Un grupo de widgets con el mismo nombre.
pub type GrupoDeWidgets = (Seq<char>, Seq<Referencia>);

/// La posición del grupo que se llama `n`, o el número de grupos si no hay.
pub open spec fn grupo_de(g: Seq<GrupoDeWidgets>, n: Seq<char>) -> int
    decreases g.len(),
{
    if g.len() == 0 {
        0
    } else if g[0].0 == n {
        0
    } else {
        1 + grupo_de(g.drop_first(), n)
    }
}

/// Los widgets agrupados por nombre: un grupo por nombre, en el orden en
/// que aparece por primera vez, con sus widgets en orden.
pub open spec fn agrupados_por_nombre(w: Seq<(Referencia, Seq<char>)>) -> Seq<GrupoDeWidgets>
    decreases w.len(),
{
    if w.len() == 0 {
        Seq::empty()
    } else {
        let g = agrupados_por_nombre(w.drop_last());
        let (id, n) = w.last();
        let k = grupo_de(g, n);
        if k < g.len() { g.update(k, (n, g[k].1.push(id))) } else { g.push((n, seq![id])) }
    }
}

proof fn grupo_de_es(g: Seq<GrupoDeWidgets>, n: Seq<char>, i: int)
    requires
        0 <= i <= g.len(),
        forall|k: int| 0 <= k < i ==> (#[trigger] g[k]).0 != n,
        i < g.len() ==> g[i].0 == n,
    ensures
        grupo_de(g, n) == i,
    decreases g.len(),
{
    if g.len() > 0 && i > 0 {
        assert(g[0].0 != n);
        assert forall|k: int| 0 <= k < i - 1 implies (#[trigger] g.drop_first()[k]).0 != n by {
            assert(g.drop_first()[k] == g[k + 1]);
        }
        grupo_de_es(g.drop_first(), n, i - 1);
    }
}

/// Los widgets como valores.
pub open spec fn widgets_vistos(w: Seq<(Referencia, String)>) -> Seq<(Referencia, Seq<char>)> {
    w.map_values(|x: (Referencia, String)| (x.0, x.1@))
}

/// Los grupos como valores.
pub open spec fn grupos_vistos(g: Seq<(String, Vec<Referencia>)>) -> Seq<GrupoDeWidgets> {
    g.map_values(|x: (String, Vec<Referencia>)| (x.0@, x.1@))
}

/// Agrupa los widgets huérfanos por nombre: dos widgets con el mismo
/// nombre son el mismo campo, que es lo que hace un grupo de radios.
pub fn agrupa_por_nombre(widgets: &Vec<(Referencia, String)>) -> (r: Vec<(String, Vec<Referencia>)>)
    ensures
        grupos_vistos(r@) == agrupados_por_nombre(widgets_vistos(widgets@)),
{
    let ghost w = widgets_vistos(widgets@);
    let mut r: Vec<(String, Vec<Referencia>)> = Vec::new();
    let mut i: usize = 0;
    while i < widgets.len()
        invariant
            w == widgets_vistos(widgets@),
            i <= widgets.len(),
            grupos_vistos(r@) == agrupados_por_nombre(w.take(i as int)),
        decreases widgets.len() - i,
    {
        let (id, nombre) = (widgets[i].0, widgets[i].1.as_str());
        let ghost g = grupos_vistos(r@);
        proof {
            assert(w.take(i + 1).drop_last() =~= w.take(i as int));
            assert(w.take(i + 1).last() == (id, nombre@));
        }
        let mut k: usize = 0;
        while k < r.len() && !mismo_texto(r[k].0.as_str(), nombre)
            invariant
                g == grupos_vistos(r@),
                k <= r.len(),
                forall|j: int| 0 <= j < k ==> (#[trigger] g[j]).0 != nombre@,
            decreases r.len() - k,
        {
            k = k + 1;
        }
        proof {
            grupo_de_es(g, nombre@, k as int);
        }
        if k < r.len() {
            let mut ids: Vec<Referencia> = Vec::new();
            let mut j: usize = 0;
            while j < r[k].1.len()
                invariant
                    k < r.len(),
                    j <= r@[k as int].1.len(),
                    ids@ == r@[k as int].1@.take(j as int),
                decreases r@[k as int].1.len() - j,
            {
                ids.push(r[k].1[j]);
                assert(ids@ =~= r@[k as int].1@.take(j + 1));
                j = j + 1;
            }
            assert(ids@ =~= r@[k as int].1@);
            ids.push(id);
            let ghost antes = r@;
            r.set(k, (String::from_str(nombre), ids));
            assert(grupos_vistos(r@) =~= g.update(k as int, (nombre@, g[k as int].1.push(id))));
        } else {
            let ghost antes = r@;
            let mut ids: Vec<Referencia> = Vec::new();
            ids.push(id);
            r.push((String::from_str(nombre), ids));
            assert(grupos_vistos(r@) =~= g.push((nombre@, seq![id])));
        }
        i = i + 1;
    }
    assert(w.take(widgets.len() as int) =~= w);
    r
}

/// Un campo que hay que volver a colgar del formulario: su nombre final,
/// si ha habido que cambiarlo y sus widgets.
pub struct CampoAReponer {
    pub nombre: String,
    pub renombrado: bool,
    pub widgets: Vec<Referencia>,
}

/// Los nombres finales de los grupos, uno tras otro: cada uno es el primer
/// libre de su nombre con `-`, contando los usados y los que ya se han
/// dado.
pub open spec fn nombres_finales_bien(finales: Seq<Seq<char>>, grupos: Seq<GrupoDeWidgets>, usados: Seq<Seq<char>>) -> bool {
    &&& finales.len() == grupos.len()
    &&& forall|k: int| 0 <= k < grupos.len() ==> primer_libre(#[trigger] finales[k], grupos[k].0, "-"@, usados + finales.take(k))
}

/// El plan para volver a montar el formulario de un documento que acaba de
/// recibir páginas: los widgets huérfanos (en orden de página y de
/// anotación) agrupados por nombre, y a cada grupo el primer nombre libre
/// (`nombre`, `nombre-2`…) frente a los campos que ya había y a los que se
/// van dando. Un grupo de un solo widget se cuelga tal cual; uno de varios
/// pasa a ser un campo con esos widgets debajo.
pub fn plan_de_reposicion(huerfanos: &Vec<(Referencia, String)>, usados: &Vec<String>) -> (r: Vec<CampoAReponer>)
    ensures
        ({
            let g = agrupados_por_nombre(widgets_vistos(huerfanos@));
            let finales = Seq::new(r@.len(), |k: int| r@[k].nombre@);
            &&& r@.len() == g.len()
            &&& nombres_finales_bien(finales, g, nombres(usados@))
            &&& forall|k: int| 0 <= k < r@.len() ==> (#[trigger] r@[k]).widgets@ == g[k].1
                && r@[k].renombrado == (r@[k].nombre@ != g[k].0)
        }),
{
    let grupos = agrupa_por_nombre(huerfanos);
    let ghost g = grupos_vistos(grupos@);
    let ghost u0 = nombres(usados@);
    let mut vistos: Vec<String> = Vec::new();
    let mut j: usize = 0;
    while j < usados.len()
        invariant
            j <= usados.len(),
            nombres(vistos@) == nombres(usados@).take(j as int),
        decreases usados.len() - j,
    {
        let ghost antes = vistos@;
        let c = usados[j].clone();
        vistos.push(c);
        assert(vistos@ == antes.push(usados@[j as int]));
        assert(nombres(usados@).take(j + 1) =~= nombres(usados@).take(j as int).push(usados@[j as int]@));
        assert(nombres(vistos@) =~= nombres(antes).push(usados@[j as int]@));
        j = j + 1;
    }
    assert(nombres(usados@).take(usados.len() as int) =~= u0);
    let mut r: Vec<CampoAReponer> = Vec::new();
    let mut k: usize = 0;
    while k < grupos.len()
        invariant
            g == grupos_vistos(grupos@),
            k <= grupos.len(),
            r@.len() == k,
            nombres(vistos@) == u0 + Seq::new(k as nat, |i: int| r@[i].nombre@),
            forall|i: int| 0 <= i < k ==> primer_libre(#[trigger] r@[i].nombre@, g[i].0, "-"@,
                u0 + Seq::new(i as nat, |m: int| r@[m].nombre@)),
            forall|i: int| 0 <= i < k ==> (#[trigger] r@[i]).widgets@ == g[i].1
                && r@[i].renombrado == (r@[i].nombre@ != g[i].0),
        decreases grupos.len() - k,
    {
        let ghost antes = r@;
        let base = grupos[k].0.as_str();
        let nombre = primer_nombre_libre(base, "-", &mut vistos);
        let renombrado = !mismo_texto(nombre.as_str(), base);
        let mut ids: Vec<Referencia> = Vec::new();
        let mut m: usize = 0;
        while m < grupos[k].1.len()
            invariant
                k < grupos.len(),
                m <= grupos@[k as int].1.len(),
                ids@ == grupos@[k as int].1@.take(m as int),
            decreases grupos@[k as int].1.len() - m,
        {
            ids.push(grupos[k].1[m]);
            assert(ids@ =~= grupos@[k as int].1@.take(m + 1));
            m = m + 1;
        }
        assert(ids@ =~= grupos@[k as int].1@);
        r.push(CampoAReponer { nombre, renombrado, widgets: ids });
        proof {
            assert(Seq::new(k as nat, |i: int| antes[i].nombre@) =~= Seq::new(k as nat, |i: int| r@[i].nombre@));
            assert(Seq::new((k + 1) as nat, |i: int| r@[i].nombre@)
                =~= Seq::new(k as nat, |i: int| r@[i].nombre@).push(r@[k as int].nombre@));
            assert forall|i: int| 0 <= i < k implies primer_libre(#[trigger] r@[i].nombre@, g[i].0, "-"@,
                u0 + Seq::new(i as nat, |m: int| r@[m].nombre@)) by {
                assert(r@[i] == antes[i]);
                assert(Seq::new(i as nat, |m: int| r@[m].nombre@) =~= Seq::new(i as nat, |m: int| antes[m].nombre@));
            }
        }
        k = k + 1;
    }
    proof {
        let finales = Seq::new(r@.len(), |i: int| r@[i].nombre@);
        assert forall|i: int| 0 <= i < g.len() implies primer_libre(#[trigger] finales[i], g[i].0, "-"@,
            u0 + finales.take(i)) by {
            assert(finales.take(i) =~= Seq::new(i as nat, |m: int| r@[m].nombre@));
        }
    }
    r
}

// ---------------------------------------------------------------------
// Los widgets que se han quedado sin campo
// ---------------------------------------------------------------------

/// Una anotación de una página, tal como la ve la reparación del
/// `/AcroForm`: su objeto (si la entrada de `/Annots` es una referencia),
/// si es un `/Widget` (falso si no es un diccionario), si tiene `/Parent`
/// y su `/T` como texto (vacío si no lo tiene).
pub struct AnotacionDePagina {
    pub id: Option<Referencia>,
    pub widget: bool,
    pub con_padre: bool,
    pub nombre: String,
}

/// ¿Es un widget huérfano? Una referencia que no cuelga ya de `/Fields`,
/// un `/Widget` sin `/Parent` y con nombre.
pub open spec fn huerfano(a: AnotacionDePagina, colgados: Seq<Referencia>) -> bool {
    &&& a.id is Some
    &&& !colgados.contains(a.id->Some_0)
    &&& a.widget
    &&& !a.con_padre
    &&& a.nombre@.len() > 0
}

/// Los widgets huérfanos de unas anotaciones, en su orden, con su nombre.
pub open spec fn huerfanos_de(s: Seq<AnotacionDePagina>, colgados: Seq<Referencia>) -> Seq<(Referencia, Seq<char>)>
    decreases s.len(),
{
    if s.len() == 0 {
        Seq::empty()
    } else {
        let antes = huerfanos_de(s.drop_last(), colgados);
        if huerfano(s.last(), colgados) { antes.push((s.last().id->Some_0, s.last().nombre@)) } else { antes }
    }
}

fn esta_colgado(colgados: &Vec<Referencia>, id: Referencia) -> (r: bool)
    ensures
        r == colgados@.contains(id),
{
    let mut i: usize = 0;
    while i < colgados.len()
        invariant
            i <= colgados.len(),
            forall|k: int| 0 <= k < i ==> colgados@[k] != id,
        decreases colgados.len() - i,
    {
        if colgados[i].0 == id.0 && colgados[i].1 == id.1 {
            return true;
        }
        i = i + 1;
    }
    false
}

/// **Los widgets que se han quedado sin campo**, los que la reparación del
/// `/AcroForm` vuelve a colgar: de las anotaciones de las páginas, en su
/// orden, las referencias a un `/Widget` que no cuelga de `/Fields`, no
/// tiene `/Parent` y tiene nombre.
pub fn widgets_huerfanos(anotaciones: &Vec<AnotacionDePagina>, colgados: &Vec<Referencia>) -> (r: Vec<(Referencia, String)>)
    ensures
        widgets_vistos(r@) == huerfanos_de(anotaciones@, colgados@),
{
    let mut r: Vec<(Referencia, String)> = Vec::new();
    let mut i: usize = 0;
    while i < anotaciones.len()
        invariant
            i <= anotaciones.len(),
            widgets_vistos(r@) == huerfanos_de(anotaciones@.take(i as int), colgados@),
        decreases anotaciones.len() - i,
    {
        let a = &anotaciones[i];
        assert(anotaciones@.take(i + 1).drop_last() =~= anotaciones@.take(i as int));
        match a.id {
            Some(id) => {
                if !esta_colgado(colgados, id) && a.widget && !a.con_padre && !a.nombre.as_str().is_empty() {
                    let ghost antes = r@;
                    r.push((id, a.nombre.clone()));
                    assert(widgets_vistos(r@) =~= widgets_vistos(antes).push((id, a.nombre@)));
                }
            },
            None => {},
        }
        i = i + 1;
    }
    assert(anotaciones@.take(anotaciones.len() as int) =~= anotaciones@);
    r
}

} // verus!

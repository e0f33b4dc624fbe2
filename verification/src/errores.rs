//! Los errores que ve el usuario, en lenguaje llano.
//!
//! Los errores de las librerías salen en jerga y en inglés (el `Debug`
//! multilínea de PDFium, el «(os error 2)» del sistema). Aquí se traducen:
//! los mensajes que ya escribimos nosotros se conservan tal cual, y si
//! llevan pegada una causa en jerga se les cambia solo esa cola.

use vstd::prelude::*;
use crate::cadenas::{busca, cadena_de, caracteres, contiene, esta_en, tiene};

verus! {

/// Los espacios en blanco de Unicode (`char::is_whitespace`).
pub open spec fn es_espacio(c: char) -> bool {
    let n = c as u32;
    ||| 9 <= n <= 13
    ||| n == 32
    ||| n == 0x85
    ||| n == 0xA0
    ||| n == 0x1680
    ||| 0x2000 <= n <= 0x200A
    ||| n == 0x2028
    ||| n == 0x2029
    ||| n == 0x202F
    ||| n == 0x205F
    ||| n == 0x3000
}

pub fn espacio(c: char) -> (r: bool)
    ensures
        r == es_espacio(c),
{
    let n = c as u32;
    (9 <= n && n <= 13) || n == 32 || n == 0x85 || n == 0xA0 || n == 0x1680 || (0x2000 <= n && n <= 0x200A)
        || n == 0x2028 || n == 0x2029 || n == 0x202F || n == 0x205F || n == 0x3000
}

/// Lo que lleva acumulado la normalización de `s` y si tiene un hueco
/// pendiente: las palabras de `s` separadas por un solo espacio.
pub open spec fn normaliza_estado(s: Seq<char>) -> (Seq<char>, bool)
    decreases s.len(),
{
    if s.len() == 0 {
        (Seq::empty(), false)
    } else {
        let (acc, hueco) = normaliza_estado(s.drop_last());
        let c = s.last();
        if es_espacio(c) {
            (acc, acc.len() > 0)
        } else {
            ((if hueco { acc.push(' ') } else { acc }).push(c), false)
        }
    }
}

/// El texto en una sola línea: las palabras separadas por un espacio, sin
/// espacios al principio ni al final (`split_whitespace` + `join(" ")`).
pub open spec fn normaliza(s: Seq<char>) -> Seq<char> {
    normaliza_estado(s).0
}

/// ¿Es mayúscula este carácter para Unicode (`char::is_uppercase`)?
pub uninterp spec fn mayuscula(c: char) -> bool;

/// `char::is_uppercase`. Promete solo que su resultado es el que nombra
/// `mayuscula`: qué letras son mayúsculas lo dice la tabla de Unicode.
#[verifier::external_body]
fn es_mayuscula(c: char) -> (r: bool)
    ensures
        r == mayuscula(c),
{
    c.is_uppercase()
}

/// La primera posición en la que aparece `a` en `s`.
pub open spec fn primera_posicion(s: Seq<char>, a: Seq<char>) -> int {
    choose|i: int| esta_en(s, a, i) && forall|k: int| 0 <= k < i ==> !esta_en(s, a, k)
}

/// Sin los signos que delatan jerga: paréntesis, llaves, comillas y comas.
pub open spec fn sin_jerga(ctx: Seq<char>) -> bool {
    forall|k: int| 0 <= k < ctx.len() ==> ctx[k] != '(' && ctx[k] != '{' && ctx[k] != '"' && ctx[k] != ','
}

/// La parte en español que ya habíamos escrito nosotros, antes de la causa
/// («No se ha podido escribir /tmp/x.png: No such file…»): lo que va antes
/// del primer «: », si empieza como una frase y no trae pinta de jerga.
pub open spec fn contexto_spec(s: Seq<char>) -> Option<Seq<char>> {
    if !contiene(s, ": "@) {
        None
    } else {
        let ctx = s.take(primera_posicion(s, ": "@));
        if ctx.len() == 0 || !sin_jerga(ctx) || !mayuscula(ctx[0]) {
            None
        } else {
            Some(ctx)
        }
    }
}

/// La causa reconocida en el mensaje, en minúscula y con la salida para el
/// usuario, o nada si el mensaje no contiene jerga.
pub open spec fn causa_spec(s: Seq<char>) -> Option<Seq<char>> {
    if contiene(s, "ObjectIndexOutOfBounds"@) || contiene(s, "ObjectIndexOutOfRange"@) {
        Some("ese elemento ya no está en la página; vuelve a abrir el documento"@)
    } else if contiene(s, "PageIndexOutOfBounds"@) || contiene(s, "PageIndexOutOfRange"@) {
        Some("esa página ya no está en el documento; ciérralo y vuelve a abrirlo"@)
    } else if contiene(s, "PasswordError"@) {
        Some("la contraseña no es correcta"@)
    } else if contiene(s, "SecurityError"@) {
        Some("el PDF no permite abrirse con esta contraseña"@)
    } else if contiene(s, "FormatError"@) {
        Some("el PDF parece dañado; prueba con otra copia del documento"@)
    } else if contiene(s, "NotFound"@) || contiene(s, "No such file or directory"@) {
        Some("no se encuentra el fichero; puede que se haya movido o borrado"@)
    } else if contiene(s, "PermissionDenied"@) || contiene(s, "Permission denied"@) {
        Some("no hay permiso para escribir ahí; elige otra carpeta"@)
    } else if contiene(s, "No space left"@) || contiene(s, "os error 28"@) {
        Some("no queda espacio en el disco"@)
    } else if contiene(s, "FileError"@) {
        Some("no se ha podido abrir el fichero; comprueba que sigue donde estaba"@)
    } else if contiene(s, "os error"@) || contiene(s, "IoError"@) {
        Some("el sistema no ha dejado terminar la operación; inténtalo de nuevo"@)
    } else if contiene(s, "image not found"@) || contiene(s, "cannot open shared object"@) || contiene(s, "dlopen"@) {
        Some("falta el motor PDF (libpdfium); reinstala la aplicación"@)
    } else if contiene(s, "PdfiumLibraryInternalError"@) || contiene(s, "PdfiumError"@) {
        Some("el PDF no ha admitido este cambio; guárdalo, ciérralo y vuelve a abrirlo"@)
    } else {
        None
    }
}

/// La letra en mayúscula, si es una minúscula del alfabeto inglés (las
/// causas empiezan todas por una).
pub open spec fn mayuscula_ascii(c: char) -> char {
    if 'a' <= c && c <= 'z' { ((c as u32) - 32) as char } else { c }
}

/// El texto con su primera letra en mayúscula.
pub open spec fn capitaliza(s: Seq<char>) -> Seq<char> {
    if s.len() == 0 { s } else { seq![mayuscula_ascii(s[0])] + s.skip(1) }
}

/// El mensaje que ve el usuario: en una línea y, si traía jerga, con la
/// causa en llano detrás de nuestro contexto (o sola, como una frase).
pub open spec fn mensaje_llano_spec(e: Seq<char>) -> Seq<char> {
    let plano = normaliza(e);
    match causa_spec(plano) {
        None => plano,
        Some(causa) => match contexto_spec(plano) {
            Some(ctx) => ctx + ": "@ + causa,
            None => capitaliza(causa),
        },
    }
}

/// El texto en una línea, con las palabras separadas por un espacio.
pub fn normaliza_espacios(s: &Vec<char>) -> (r: Vec<char>)
    ensures
        r@ == normaliza(s@),
{
    let mut acc: Vec<char> = Vec::new();
    let mut hueco = false;
    let mut i: usize = 0;
    while i < s.len()
        invariant
            i <= s.len(),
            normaliza_estado(s@.take(i as int)) == (acc@, hueco),
        decreases s.len() - i,
    {
        let c = s[i];
        assert(s@.take(i + 1).drop_last() =~= s@.take(i as int));
        if espacio(c) {
            hueco = acc.len() > 0;
        } else {
            if hueco {
                acc.push(' ');
            }
            acc.push(c);
            hueco = false;
        }
        i = i + 1;
    }
    assert(s@.take(s.len() as int) =~= s@);
    acc
}

/// La primera posición de `a` en `s` es la que encuentra `busca`.
proof fn primera_es_la_encontrada(s: Seq<char>, a: Seq<char>, i: int)
    requires
        esta_en(s, a, i),
        forall|k: int| 0 <= k < i ==> !esta_en(s, a, k),
    ensures
        primera_posicion(s, a) == i,
{
    let j = primera_posicion(s, a);
    assert(esta_en(s, a, j) && forall|k: int| 0 <= k < j ==> !esta_en(s, a, k));
    if j < i {
        assert(!esta_en(s, a, j));
    }
    if i < j {
        assert(!esta_en(s, a, i));
    }
}

/// ¿Está alguno de los signos de jerga en el texto?
fn sin_jerga_exec(ctx: &Vec<char>) -> (r: bool)
    ensures
        r == sin_jerga(ctx@),
{
    let mut k: usize = 0;
    while k < ctx.len()
        invariant
            k <= ctx.len(),
            forall|j: int| 0 <= j < k ==> ctx@[j] != '(' && ctx@[j] != '{' && ctx@[j] != '"' && ctx@[j] != ',',
        decreases ctx.len() - k,
    {
        let c = ctx[k];
        if c == '(' || c == '{' || c == '"' || c == ',' {
            return false;
        }
        k = k + 1;
    }
    true
}

/// El contexto nuestro que va antes de la causa, si lo hay.
pub fn contexto_de(s: &Vec<char>) -> (r: Option<Vec<char>>)
    ensures
        match r {
            Some(c) => contexto_spec(s@) == Some(c@),
            None => contexto_spec(s@) is None,
        },
{
    let sep = caracteres(": ");
    match busca(s, &sep) {
        None => None,
        Some(i) => {
            proof { primera_es_la_encontrada(s@, sep@, i as int); }
            let mut ctx: Vec<char> = Vec::new();
            let mut k: usize = 0;
            while k < i
                invariant
                    i <= s.len(),
                    k <= i,
                    ctx@ == s@.take(k as int),
                decreases i - k,
            {
                ctx.push(s[k]);
                assert(s@.take(k as int).push(s@[k as int]) =~= s@.take(k + 1));
                k = k + 1;
            }
            if ctx.len() == 0 || !sin_jerga_exec(&ctx) || !es_mayuscula(ctx[0]) {
                None
            } else {
                Some(ctx)
            }
        },
    }
}

/// La causa reconocida en el mensaje, o nada si no lleva jerga.
pub fn causa_llana(s: &Vec<char>) -> (r: Option<&'static str>)
    ensures
        match r {
            Some(c) => causa_spec(s@) == Some(c@),
            None => causa_spec(s@) is None,
        },
{
    if tiene(s, "ObjectIndexOutOfBounds") || tiene(s, "ObjectIndexOutOfRange") {
        Some("ese elemento ya no está en la página; vuelve a abrir el documento")
    } else if tiene(s, "PageIndexOutOfBounds") || tiene(s, "PageIndexOutOfRange") {
        Some("esa página ya no está en el documento; ciérralo y vuelve a abrirlo")
    } else if tiene(s, "PasswordError") {
        Some("la contraseña no es correcta")
    } else if tiene(s, "SecurityError") {
        Some("el PDF no permite abrirse con esta contraseña")
    } else if tiene(s, "FormatError") {
        Some("el PDF parece dañado; prueba con otra copia del documento")
    } else if tiene(s, "NotFound") || tiene(s, "No such file or directory") {
        Some("no se encuentra el fichero; puede que se haya movido o borrado")
    } else if tiene(s, "PermissionDenied") || tiene(s, "Permission denied") {
        Some("no hay permiso para escribir ahí; elige otra carpeta")
    } else if tiene(s, "No space left") || tiene(s, "os error 28") {
        Some("no queda espacio en el disco")
    } else if tiene(s, "FileError") {
        Some("no se ha podido abrir el fichero; comprueba que sigue donde estaba")
    } else if tiene(s, "os error") || tiene(s, "IoError") {
        Some("el sistema no ha dejado terminar la operación; inténtalo de nuevo")
    } else if tiene(s, "image not found") || tiene(s, "cannot open shared object") || tiene(s, "dlopen") {
        Some("falta el motor PDF (libpdfium); reinstala la aplicación")
    } else if tiene(s, "PdfiumLibraryInternalError") || tiene(s, "PdfiumError") {
        Some("el PDF no ha admitido este cambio; guárdalo, ciérralo y vuelve a abrirlo")
    } else {
        None
    }
}

/// El texto con su primera letra en mayúscula.
fn capitaliza_exec(s: &Vec<char>) -> (r: Vec<char>)
    ensures
        r@ == capitaliza(s@),
{
    let mut r: Vec<char> = Vec::new();
    let mut k: usize = 0;
    while k < s.len()
        invariant
            k <= s.len(),
            r@.len() == k,
            forall|j: int| 0 < j < k ==> r@[j] == s@[j],
            k > 0 ==> r@[0] == mayuscula_ascii(s@[0]),
        decreases s.len() - k,
    {
        let c = s[k];
        if k == 0 && 'a' <= c && c <= 'z' {
            let m = ((c as u32) - 32) as u8;
            r.push(m as char);
        } else {
            r.push(c);
        }
        k = k + 1;
    }
    assert(r@ =~= capitaliza(s@));
    r
}

/// Traduce a lenguaje llano el error que va a ver el usuario. Los mensajes
/// que ya escribimos nosotros se conservan; si llevan pegada la causa en
/// jerga, se les cambia solo esa cola.
pub fn mensaje_llano(e: &str) -> (r: String)
    ensures
        r@ == mensaje_llano_spec(e@),
{
    let bruto = caracteres(e);
    let plano = normaliza_espacios(&bruto);
    match causa_llana(&plano) {
        None => cadena_de(&plano),
        Some(causa) => {
            let c = caracteres(causa);
            match contexto_de(&plano) {
                Some(ctx) => {
                    let mut out = cadena_de(&ctx);
                    out.append(": ");
                    out.append(causa);
                    out
                },
                None => {
                    let m = capitaliza_exec(&c);
                    cadena_de(&m)
                },
            }
        },
    }
}

// ---------------------------------------------------------------------
// Un mensaje ya llano pasa igual
// ---------------------------------------------------------------------

/// Sin espacios que no sean uno solo entre dos caracteres que no lo son,
/// salvo quizá uno al final.
pub open spec fn casi_normal(t: Seq<char>) -> bool {
    forall|k: int| 0 <= k < t.len() && #[trigger] es_espacio(t[k]) ==> t[k] == ' ' && k > 0 && !es_espacio(t[k - 1])
}

/// Texto ya normalizado: palabras separadas por un solo espacio, sin
/// espacios en los extremos.
pub open spec fn es_normal(t: Seq<char>) -> bool {
    casi_normal(t) && (t.len() > 0 ==> !es_espacio(t.last()))
}

proof fn normaliza_da_normal(s: Seq<char>)
    ensures
        es_normal(normaliza_estado(s).0),
        normaliza_estado(s).1 ==> normaliza_estado(s).0.len() > 0,
    decreases s.len(),
{
    if s.len() > 0 {
        normaliza_da_normal(s.drop_last());
        let (acc, hueco) = normaliza_estado(s.drop_last());
        let c = s.last();
        if !es_espacio(c) {
            let a2 = if hueco { acc.push(' ') } else { acc };
            let r = a2.push(c);
            assert(es_espacio(' '));
            assert forall|k: int| 0 <= k < r.len() && #[trigger] es_espacio(r[k]) implies r[k] == ' ' && k > 0 && !es_espacio(r[k - 1]) by {
                if k < acc.len() {
                    assert(r[k] == acc[k]);
                    assert(acc[k] == ' ' && k > 0 && !es_espacio(acc[k - 1]));
                    assert(r[k - 1] == acc[k - 1]);
                } else if hueco && k == acc.len() {
                    assert(acc.len() > 0);
                    assert(r[k - 1] == acc.last());
                }
            }
        }
    }
}

proof fn normaliza_de_casi_normal(t: Seq<char>)
    requires
        casi_normal(t),
    ensures
        t.len() > 0 && t.last() == ' ' ==> normaliza_estado(t) == (t.drop_last(), true),
        !(t.len() > 0 && t.last() == ' ') ==> normaliza_estado(t) == (t, false),
    decreases t.len(),
{
    if t.len() > 0 {
        let r = t.drop_last();
        assert forall|k: int| 0 <= k < r.len() && #[trigger] es_espacio(r[k]) implies r[k] == ' ' && k > 0 && !es_espacio(r[k - 1]) by {
            assert(r[k] == t[k]);
            assert(es_espacio(t[k]));
        }
        normaliza_de_casi_normal(r);
        let c = t.last();
        assert(es_espacio(' '));
        if es_espacio(c) {
            assert(es_espacio(t[t.len() - 1]));
            assert(r.len() > 0 && !es_espacio(r.last()));
        } else {
            if r.len() > 0 && r.last() == ' ' {
                assert(r.drop_last().push(' ').push(c) =~= t);
            } else {
                assert(r.push(c) =~= t);
            }
        }
    }
}

/// Normalizar un texto ya normalizado lo deja igual.
proof fn normaliza_idempotente(s: Seq<char>)
    ensures
        normaliza(normaliza(s)) == normaliza(s),
{
    normaliza_da_normal(s);
    normaliza_de_casi_normal(normaliza(s));
}

/// Un mensaje sin jerga queda en una línea, y traducirlo otra vez no lo
/// cambia: el mensaje que ya es llano pasa igual.
pub proof fn ley_mensaje_llano_idempotente(e: Seq<char>)
    requires
        causa_spec(normaliza(e)) is None,
    ensures
        mensaje_llano_spec(e) == normaliza(e),
        mensaje_llano_spec(mensaje_llano_spec(e)) == mensaje_llano_spec(e),
{
    normaliza_idempotente(e);
}

} // verus!

//! Los documentos abiertos: el caché de documentos cargados, el nombre de
//! la copia de trabajo, qué se lleva el barrido de temporales al arrancar
//! y cómo se le dice al usuario que un PDF no se ha podido abrir.

use vstd::prelude::*;
use crate::cadenas::{acaba, acaba_en, contiene, contiene_texto, decimal_largo, decimal_spec,
    empieza, empieza_por, mismo_texto, une};
use crate::recientes::nombre_visible;
use crate::rutas::{nombre_de_fichero, nombre_en_ruta, raiz_de_fichero, raiz_en_ruta};

verus! {

/// Cuántos documentos se tienen cargados a la vez.
pub const DOCUMENTOS_EN_CACHE: usize = 4;

/// Las rutas de las entradas del caché, en su orden.
pub open spec fn rutas_de<T>(c: Seq<(String, T)>) -> Seq<Seq<char>> {
    c.map_values(|e: (String, T)| e.0@)
}

/// La posición de la primera vez que sale `x` en `l`, o la longitud de la
/// lista si no sale.
pub open spec fn indice_en(l: Seq<Seq<char>>, x: Seq<char>) -> int
    decreases l.len(),
{
    if l.len() == 0 {
        0
    } else if l[0] == x {
        0
    } else {
        1 + indice_en(l.drop_first(), x)
    }
}

/// Las entradas que quedan cuando hay que hacer sitio a una más: se
/// sueltan las primeras, que son las que llevan más tiempo sin usarse,
/// hasta dejar hueco sin pasar del tope.
pub open spec fn con_hueco<A>(c: Seq<A>) -> Seq<A> {
    if c.len() >= DOCUMENTOS_EN_CACHE {
        c.skip(c.len() - (DOCUMENTOS_EN_CACHE - 1))
    } else {
        c
    }
}

/// Las rutas del caché tras usar `p`: si estaba, pasa al final; si no, se
/// hace hueco y entra al final.
pub open spec fn tras_usar(l: Seq<Seq<char>>, p: Seq<char>) -> Seq<Seq<char>> {
    let i = indice_en(l, p);
    if i < l.len() { l.remove(i).push(p) } else { con_hueco(l).push(p) }
}

proof fn indice_es(l: Seq<Seq<char>>, x: Seq<char>, i: int)
    requires
        0 <= i <= l.len(),
        forall|k: int| 0 <= k < i ==> l[k] != x,
        i < l.len() ==> l[i] == x,
    ensures
        indice_en(l, x) == i,
    decreases l.len(),
{
    if l.len() > 0 && i > 0 {
        assert(l[0] != x);
        assert forall|k: int| 0 <= k < i - 1 implies l.drop_first()[k] != x by {
            assert(l.drop_first()[k] == l[k + 1]);
        }
        indice_es(l.drop_first(), x, i - 1);
    }
}

proof fn indice_acotado(l: Seq<Seq<char>>, x: Seq<char>)
    ensures
        0 <= indice_en(l, x) <= l.len(),
        forall|k: int| 0 <= k < indice_en(l, x) ==> l[k] != x,
        indice_en(l, x) < l.len() ==> l[indice_en(l, x)] == x,
    decreases l.len(),
{
    if l.len() > 0 && l[0] != x {
        indice_acotado(l.drop_first(), x);
        assert forall|k: int| 0 <= k < indice_en(l, x) implies l[k] != x by {
            if k > 0 {
                assert(l[k] == l.drop_first()[k - 1]);
            }
        }
    }
}

/// Deja el documento de `path` en el caché y devuelve dónde está. Si ya
/// estaba, pasa al final sin volver a cargarse. Si no, se carga con
/// `carga`; si la carga falla, el caché no cambia y sale su error; si no,
/// se sueltan los que llevan más tiempo sin usarse hasta dejar hueco
/// (nunca hay más de los que dice el tope) y el nuevo entra al final.
pub fn coloca<T>(
    cache: &mut Vec<(String, T)>,
    path: &str,
    carga: impl FnOnce() -> Result<T, String>,
) -> (r: Result<usize, String>)
    requires
        carga.requires(()),
    ensures
        ({
            let antes = old(cache)@;
            let i = indice_en(rutas_de(antes), path@);
            if i < antes.len() {
                &&& r == Ok::<usize, String>((antes.len() - 1) as usize)
                &&& final(cache)@ == antes.remove(i).push(antes[i])
            } else {
                match r {
                    Err(e) => final(cache)@ == antes && carga.ensures((), Err::<T, String>(e)),
                    Ok(k) => {
                        &&& final(cache)@.len() > 0
                        &&& k == final(cache)@.len() - 1
                        &&& final(cache)@.drop_last() == con_hueco(antes)
                        &&& final(cache)@.last().0@ == path@
                        &&& carga.ensures((), Ok::<T, String>(final(cache)@.last().1))
                    },
                }
            }
        }),
        r is Ok ==> rutas_de(final(cache)@) == tras_usar(rutas_de(old(cache)@), path@),
        old(cache).len() <= DOCUMENTOS_EN_CACHE ==> final(cache).len() <= DOCUMENTOS_EN_CACHE,
{
    let ghost antes = cache@;
    let ghost rutas = rutas_de(antes);
    let n = cache.len();
    let mut i: usize = 0;
    while i < n && !mismo_texto(cache[i].0.as_str(), path)
        invariant
            n == cache.len(),
            cache@ == antes,
            rutas == rutas_de(antes),
            i <= n,
            forall|k: int| 0 <= k < i ==> rutas[k] != path@,
        decreases n - i,
    {
        i = i + 1;
    }
    proof {
        indice_es(rutas, path@, i as int);
    }
    if i < n {
        let entrada = cache.remove(i);
        cache.push(entrada);
        proof {
            assert(rutas_de(cache@) =~= rutas.remove(i as int).push(path@));
        }
        return Ok(cache.len() - 1);
    }
    let doc = match carga() {
        Ok(d) => d,
        Err(e) => return Err(e),
    };
    while cache.len() >= DOCUMENTOS_EN_CACHE
        invariant
            antes.len() == n,
            cache@.len() <= n,
            cache@ == antes.skip(n - cache@.len()),
            n >= DOCUMENTOS_EN_CACHE ==> cache@.len() >= DOCUMENTOS_EN_CACHE - 1,
            n < DOCUMENTOS_EN_CACHE ==> cache@.len() == n,
        decreases cache.len(),
    {
        cache.remove(0);
        assert(cache@ =~= antes.skip(n - cache@.len()));
    }
    assert(cache@ =~= con_hueco(antes));
    cache.push((String::from_str(path), doc));
    proof {
        assert(rutas_de(cache@) =~= con_hueco(rutas).push(path@));
    }
    Ok(cache.len() - 1)
}

/// Usar un documento lo deja el último del caché, que es el sitio del más
/// reciente; el caché nunca pasa del tope; los que se sueltan para hacer
/// sitio son los primeros, los que más tiempo llevan sin usarse; y si no
/// había rutas repetidas, sigue sin haberlas.
pub proof fn ley_cache(l: Seq<Seq<char>>, p: Seq<char>)
    ensures
        tras_usar(l, p).len() > 0,
        tras_usar(l, p).last() == p,
        l.len() <= DOCUMENTOS_EN_CACHE ==> tras_usar(l, p).len() <= DOCUMENTOS_EN_CACHE,
        indice_en(l, p) == l.len() ==> tras_usar(l, p).drop_last() == l.skip(
            l.len() - tras_usar(l, p).drop_last().len()),
        (forall|a: int, b: int| 0 <= a < b < l.len() ==> l[a] != l[b]) ==> (forall|a: int, b: int|
            0 <= a < b < tras_usar(l, p).len() ==> tras_usar(l, p)[a] != tras_usar(l, p)[b]),
{
    indice_acotado(l, p);
    let i = indice_en(l, p);
    let t = tras_usar(l, p);
    if i < l.len() {
        assert(t.len() == l.len());
        if forall|a: int, b: int| 0 <= a < b < l.len() ==> l[a] != l[b] {
            assert forall|a: int, b: int| 0 <= a < b < t.len() implies t[a] != t[b] by {
                let ra = if a < i { a } else { a + 1 };
                if b == t.len() - 1 {
                    assert(t[a] == l[ra]);
                    assert(l[i] == p);
                } else {
                    let rb = if b < i { b } else { b + 1 };
                    assert(t[a] == l[ra] && t[b] == l[rb]);
                }
            }
        }
    } else {
        let h = con_hueco(l);
        assert(t.drop_last() =~= h);
        if forall|a: int, b: int| 0 <= a < b < l.len() ==> l[a] != l[b] {
            let s = l.len() - h.len();
            assert forall|a: int, b: int| 0 <= a < b < t.len() implies t[a] != t[b] by {
                assert(t[a] == l[a + s]);
                if b < t.len() - 1 {
                    assert(t[b] == l[b + s]);
                }
            }
        }
    }
}

/// El nombre de la copia de trabajo de `original` hecha en el instante
/// `nanos`: `vitela-`, el nombre del original sin extensión (o
/// `documento`), un guion, el instante y `.pdf`.
pub open spec fn nombre_de_copia_spec(original: Seq<char>, nanos: nat) -> Seq<char> {
    let raiz = match raiz_en_ruta(original) {
        Some(r) => r,
        None => "documento"@,
    };
    "vitela-"@ + raiz + "-"@ + decimal_spec(nanos) + ".pdf"@
}

/// El nombre de la copia de trabajo (la carpeta temporal y el instante los
/// pone quien llama).
pub fn nombre_de_copia(original: &str, nanos: u128) -> (r: String)
    ensures
        r@ == nombre_de_copia_spec(original@, nanos as nat),
{
    let raiz = match raiz_de_fichero(original) {
        Some(r) => r,
        None => String::from_str("documento"),
    };
    let a = une("vitela-", raiz.as_str());
    let b = une(a.as_str(), "-");
    let n = decimal_largo(nanos);
    let c = une(b.as_str(), n.as_str());
    une(c.as_str(), ".pdf")
}

/// Los textos de una lista de cadenas.
pub open spec fn textos(v: Seq<String>) -> Seq<Seq<char>> {
    v.map_values(|s: String| s@)
}

/// Los nombres de fichero de las copias apuntadas, en su orden y sin los
/// que no tienen nombre o lo tienen vacío.
pub open spec fn nombres_de_copias(l: Seq<Seq<char>>) -> Seq<Seq<char>>
    decreases l.len(),
{
    if l.len() == 0 {
        Seq::empty()
    } else {
        let r = nombres_de_copias(l.drop_last());
        match nombre_en_ruta(l.last()) {
            Some(n) => if n.len() > 0 { r.push(n) } else { r },
            None => r,
        }
    }
}

/// Los nombres de fichero de las copias apuntadas para recuperar.
pub fn nombres_apuntados(copias: &Vec<String>) -> (r: Vec<String>)
    ensures
        textos(r@) == nombres_de_copias(textos(copias@)),
{
    let ghost l = textos(copias@);
    let mut r: Vec<String> = Vec::new();
    let mut i: usize = 0;
    while i < copias.len()
        invariant
            l == textos(copias@),
            i <= copias.len(),
            textos(r@) == nombres_de_copias(l.take(i as int)),
        decreases copias.len() - i,
    {
        proof {
            assert(l.take(i + 1).drop_last() =~= l.take(i as int));
        }
        match nombre_de_fichero(copias[i].as_str()) {
            Some(n) => {
                if !n.as_str().is_empty() {
                    let ghost antes = r@;
                    r.push(n);
                    assert(textos(r@) =~= textos(antes).push(r@.last()@));
                }
            },
            None => {},
        }
        i = i + 1;
    }
    assert(l.take(copias.len() as int) =~= l);
    r
}

/// ¿Es el fichero `nombre` de una copia apuntada (o de algo suyo, como sus
/// instantáneas)? Lo es si su nombre empieza por el de alguna.
pub open spec fn salvada_spec(nombre: Seq<char>, apuntados: Seq<Seq<char>>) -> bool {
    exists|k: int| 0 <= k < apuntados.len() && empieza_por(nombre, #[trigger] apuntados[k])
}

pub fn salvada(nombre: &str, apuntados: &Vec<String>) -> (r: bool)
    ensures
        r == salvada_spec(nombre@, textos(apuntados@)),
{
    let ghost l = textos(apuntados@);
    let mut i: usize = 0;
    while i < apuntados.len()
        invariant
            l == textos(apuntados@),
            i <= apuntados.len(),
            forall|k: int| 0 <= k < i ==> !empieza_por(nombre@, #[trigger] l[k]),
        decreases apuntados.len() - i,
    {
        if empieza(nombre, apuntados[i].as_str()) {
            assert(empieza_por(nombre@, l[i as int]));
            return true;
        }
        i = i + 1;
    }
    false
}

/// ¿Es un fichero de la carpeta temporal una copia de trabajo nuestra que
/// se puede barrer? Empieza por `vitela-`, acaba en `.pdf` o `.pdf.tmp` y
/// no es de una copia apuntada.
pub open spec fn copia_huerfana(nombre: Seq<char>, apuntados: Seq<Seq<char>>) -> bool {
    &&& empieza_por(nombre, "vitela-"@)
    &&& (acaba_en(nombre, ".pdf"@) || acaba_en(nombre, ".pdf.tmp"@))
    &&& !salvada_spec(nombre, apuntados)
}

pub fn es_copia_huerfana(nombre: &str, apuntados: &Vec<String>) -> (r: bool)
    ensures
        r == copia_huerfana(nombre@, textos(apuntados@)),
{
    empieza(nombre, "vitela-") && (acaba(nombre, ".pdf") || acaba(nombre, ".pdf.tmp"))
        && !salvada(nombre, apuntados)
}

/// ¿Es una instantánea del historial que se puede barrer? Lleva `.snap` y
/// no es de una copia apuntada.
pub open spec fn instantanea_huerfana(nombre: Seq<char>, apuntados: Seq<Seq<char>>) -> bool {
    contiene(nombre, ".snap"@) && !salvada_spec(nombre, apuntados)
}

pub fn es_instantanea_huerfana(nombre: &str, apuntados: &Vec<String>) -> (r: bool)
    ensures
        r == instantanea_huerfana(nombre@, textos(apuntados@)),
{
    contiene_texto(nombre, ".snap") && !salvada(nombre, apuntados)
}

/// ¿Es la carpeta de un adjunto abierto con el visor del sistema?
pub fn es_carpeta_de_adjunto(nombre: &str) -> (r: bool)
    ensures
        r == empieza_por(nombre@, "vitela-adjunto-"@),
{
    empieza(nombre, "vitela-adjunto-")
}

/// Por qué no se ha podido abrir un PDF.
pub enum ErrorDeApertura {
    /// El fichero no está.
    NoEncontrado,
    /// Otro error del sistema al leerlo, con su texto.
    Lectura(String),
    /// No es un PDF o está dañado.
    Formato,
    /// El motor no ha podido abrir el fichero.
    Fichero,
    /// La contraseña no abre el PDF.
    Seguridad,
    /// Hace falta una contraseña; lleva el texto del error.
    Contrasena(String),
    /// Cualquier otro fallo, con su texto.
    Otro(String),
}

/// El mensaje para el usuario cuando no se ha podido abrir `path`.
pub open spec fn mensaje_apertura_spec(e: ErrorDeApertura, path: Seq<char>) -> Seq<char> {
    match e {
        ErrorDeApertura::NoEncontrado => "No se encuentra «"@ + nombre_visible(path)
            + "»: puede que se haya movido, cambiado de nombre o borrado"@,
        ErrorDeApertura::Lectura(d) => "No se ha podido leer el fichero: "@ + d@,
        ErrorDeApertura::Formato => "El fichero no es un PDF válido o está dañado"@,
        ErrorDeApertura::Fichero => "No se ha podido abrir el fichero"@,
        ErrorDeApertura::Seguridad => "El PDF no permite abrirse con esta contraseña"@,
        ErrorDeApertura::Contrasena(d) => "No se ha podido abrir el PDF: "@ + d@,
        ErrorDeApertura::Otro(d) => "No se ha podido abrir el PDF: "@ + d@,
    }
}

pub fn mensaje_apertura(e: &ErrorDeApertura, path: &str) -> (r: String)
    ensures
        r@ == mensaje_apertura_spec(*e, path@),
{
    match e {
        ErrorDeApertura::NoEncontrado => {
            let nombre = match nombre_de_fichero(path) {
                Some(n) => n,
                None => String::from_str(path),
            };
            let a = une("No se encuentra «", nombre.as_str());
            une(a.as_str(), "»: puede que se haya movido, cambiado de nombre o borrado")
        },
        ErrorDeApertura::Lectura(d) => une("No se ha podido leer el fichero: ", d.as_str()),
        ErrorDeApertura::Formato => String::from_str("El fichero no es un PDF válido o está dañado"),
        ErrorDeApertura::Fichero => String::from_str("No se ha podido abrir el fichero"),
        ErrorDeApertura::Seguridad => String::from_str("El PDF no permite abrirse con esta contraseña"),
        ErrorDeApertura::Contrasena(d) => une("No se ha podido abrir el PDF: ", d.as_str()),
        ErrorDeApertura::Otro(d) => une("No se ha podido abrir el PDF: ", d.as_str()),
    }
}

/// Lo que se le contesta a la interfaz cuando abrir falla: si hace falta
/// contraseña, la señal `PASSWORD_REQUIRED` para que la pida; si no, el
/// mensaje para el usuario.
pub fn respuesta_de_apertura(e: &ErrorDeApertura, path: &str) -> (r: String)
    ensures
        e is Contrasena ==> r@ == "PASSWORD_REQUIRED"@,
        !(e is Contrasena) ==> r@ == mensaje_apertura_spec(*e, path@),
{
    match e {
        ErrorDeApertura::Contrasena(_) => String::from_str("PASSWORD_REQUIRED"),
        _ => mensaje_apertura(e, path),
    }
}

} // verus!

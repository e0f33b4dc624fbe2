//! «Crear PDF desde imágenes»: las imágenes que no se dejan leer se saltan,
//! se apuntan con su motivo en llano y el lote sigue. Si no se puede leer
//! ninguna, el error lo dice con los nombres y los motivos. Y el contenido
//! de una imagen viaja a la interfaz como PNG en base64.

use vstd::prelude::*;
use crate::cadenas::{cadena_de, caracteres, recorta, recortado, une};
use crate::recientes::nombre_visible;
use crate::rutas::nombre_de_fichero;

verus! {

/// Por qué no se ha podido leer una imagen.
pub enum FalloDeImagen {
    /// El fichero ya no está.
    NoEncontrada,
    /// Otro error del sistema al leerlo.
    Lectura,
    /// Un formato que no se entiende.
    FormatoDesconocido,
    /// Está dañada o no es una imagen.
    Danada,
    /// Pasa de los límites de tamaño.
    DemasiadoGrande,
    /// Leída, pero sin tamaño.
    SinTamano,
    /// Cualquier otro fallo.
    Otro,
}

/// El motivo, en llano, para la banda.
pub open spec fn motivo_spec(f: FalloDeImagen) -> Seq<char> {
    match f {
        FalloDeImagen::NoEncontrada => "El fichero ya no está donde estaba"@,
        FalloDeImagen::Lectura => "No se ha podido leer el fichero"@,
        FalloDeImagen::FormatoDesconocido => "Vitela no entiende ese formato de imagen"@,
        FalloDeImagen::Danada => "El fichero está dañado o no es una imagen"@,
        FalloDeImagen::DemasiadoGrande => "La imagen es demasiado grande"@,
        FalloDeImagen::SinTamano => "La imagen no tiene tamaño"@,
        FalloDeImagen::Otro => "No se ha podido leer como imagen"@,
    }
}

pub fn motivo_de_imagen(f: &FalloDeImagen) -> (r: String)
    ensures
        r@ == motivo_spec(*f),
{
    match f {
        FalloDeImagen::NoEncontrada => String::from_str("El fichero ya no está donde estaba"),
        FalloDeImagen::Lectura => String::from_str("No se ha podido leer el fichero"),
        FalloDeImagen::FormatoDesconocido => String::from_str("Vitela no entiende ese formato de imagen"),
        FalloDeImagen::Danada => String::from_str("El fichero está dañado o no es una imagen"),
        FalloDeImagen::DemasiadoGrande => String::from_str("La imagen es demasiado grande"),
        FalloDeImagen::SinTamano => String::from_str("La imagen no tiene tamaño"),
        FalloDeImagen::Otro => String::from_str("No se ha podido leer como imagen"),
    }
}

/// Lo que ha salido: las páginas escritas y las imágenes que se han quedado
/// fuera (las rutas tal como llegaron), con su motivo en paralelo.
pub struct InformeImagenes {
    pub paginas: u16,
    pub saltadas: Vec<String>,
    pub motivos: Vec<String>,
}

impl InformeImagenes {
    /// Nada escrito y nada saltado.
    pub fn nuevo() -> (r: InformeImagenes)
        ensures
            r.paginas == 0,
            r.saltadas@.len() == 0,
            r.motivos@.len() == 0,
    {
        InformeImagenes { paginas: 0, saltadas: Vec::new(), motivos: Vec::new() }
    }

    /// Apunta una imagen saltada con su motivo.
    pub fn salta(&mut self, ruta: &str, motivo: String)
        ensures
            final(self).paginas == old(self).paginas,
            final(self).saltadas@.len() == old(self).saltadas@.len() + 1,
            final(self).saltadas@.drop_last() == old(self).saltadas@,
            final(self).saltadas@.last()@ == ruta@,
            final(self).motivos@ == old(self).motivos@.push(motivo),
    {
        self.saltadas.push(String::from_str(ruta));
        self.motivos.push(motivo);
        assert(self.saltadas@.drop_last() =~= old(self).saltadas@);
    }

    /// El nombre suelto de la saltada `i`, que es lo que se enseña.
    pub fn nombre(&self, i: usize) -> (r: String)
        requires
            i < self.saltadas.len(),
        ensures
            r@ == nombre_visible(self.saltadas@[i as int]@),
    {
        let ruta = self.saltadas[i].as_str();
        match nombre_de_fichero(ruta) {
            Some(n) => n,
            None => self.saltadas[i].clone(),
        }
    }
}

/// Cada saltada, `nombre (motivo)`, separadas por comas.
pub open spec fn lista_de_saltadas(saltadas: Seq<String>, motivos: Seq<String>) -> Seq<char>
    decreases saltadas.len(),
{
    if saltadas.len() == 0 {
        Seq::empty()
    } else {
        let previa = lista_de_saltadas(saltadas.drop_last(), motivos);
        let i = saltadas.len() - 1;
        let una = nombre_visible(saltadas[i]@) + " ("@ + motivos[i]@ + ")"@;
        if i == 0 { una } else { previa + ", "@ + una }
    }
}

/// El error de cuando no se ha podido leer ninguna imagen.
pub fn ninguna_imagen(informe: &InformeImagenes) -> (r: String)
    requires
        informe.motivos.len() == informe.saltadas.len(),
    ensures
        r@ == "No se ha podido leer ninguna de las imágenes: "@
            + lista_de_saltadas(informe.saltadas@, informe.motivos@),
{
    let mut lista = String::new();
    let mut i: usize = 0;
    while i < informe.saltadas.len()
        invariant
            informe.motivos.len() == informe.saltadas.len(),
            i <= informe.saltadas.len(),
            lista@ == lista_de_saltadas(informe.saltadas@.take(i as int), informe.motivos@),
        decreases informe.saltadas.len() - i,
    {
        let n = informe.nombre(i);
        let a = une(n.as_str(), " (");
        let b = une(a.as_str(), informe.motivos[i].as_str());
        let una = une(b.as_str(), ")");
        proof {
            let t = informe.saltadas@.take(i + 1);
            assert(t.drop_last() =~= informe.saltadas@.take(i as int));
            assert(t[i as int] == informe.saltadas@[i as int]);
        }
        if i == 0 {
            lista = una;
        } else {
            let c = une(lista.as_str(), ", ");
            lista = une(c.as_str(), una.as_str());
        }
        i = i + 1;
    }
    assert(informe.saltadas@.take(informe.saltadas.len() as int) =~= informe.saltadas@);
    une("No se ha podido leer ninguna de las imágenes: ", lista.as_str())
}

// ---------------------------------------------------------------------
// El contenido de una imagen, hacia la interfaz

/// Los bytes en base64 con el alfabeto estándar y relleno con `=`
/// (`base64::engine::general_purpose::STANDARD`).
pub uninterp spec fn base64_estandar(datos: Seq<u8>) -> Seq<char>;

/// `base64::engine::general_purpose::STANDARD.encode`: el texto que nombra
/// `base64_estandar`, que con el relleno mide cuatro caracteres por cada
/// tres bytes o fracción. El crate se para si esa longitud no cabe en un
/// `usize`.
#[verifier::external_body]
fn en_base64(datos: &[u8]) -> (r: String)
    requires
        4 * ((datos@.len() + 2) / 3) <= usize::MAX,
    ensures
        r@ == base64_estandar(datos@),
        r@.len() == 4 * ((datos@.len() + 2) / 3),
{
    base64::Engine::encode(&base64::engine::general_purpose::STANDARD, datos)
}

/// **El contenido de una imagen para la interfaz**: su PNG en base64
/// estándar, que es lo que el webview pone en un `data:`.
pub fn png_en_base64(png: &[u8]) -> (r: String)
    requires
        4 * ((png@.len() + 2) / 3) <= usize::MAX,
    ensures
        r@ == base64_estandar(png@),
        r@.len() == 4 * ((png@.len() + 2) / 3),
{
    en_base64(png)
}

// ---------------------------------------------------------------------
// La marca de agua

/// Los bytes que dan unos caracteres leídos como base64 estándar con
/// relleno, o nada si no lo son (`STANDARD.decode`).
pub uninterp spec fn desde_base64(texto: Seq<char>) -> Option<Seq<u8>>;

/// `base64::engine::general_purpose::STANDARD.decode`: los bytes que
/// nombra `desde_base64`, o nada si el texto no es base64 válido.
#[verifier::external_body]
fn de_base64(texto: &str) -> (r: Option<Vec<u8>>)
    ensures
        match r {
            Some(b) => desde_base64(texto@) == Some(b@),
            None => desde_base64(texto@) is None,
        },
{
    base64::Engine::decode(&base64::engine::general_purpose::STANDARD, texto).ok()
}

/// Lo que sigue a la última coma (todo, si no hay ninguna): de una URL
/// `data:image/png;base64,…`, el base64.
pub open spec fn tras_la_ultima_coma(s: Seq<char>) -> Seq<char>
    decreases s.len(),
{
    if s.len() == 0 {
        s
    } else if s.last() == ',' {
        Seq::empty()
    } else {
        tras_la_ultima_coma(s.drop_last()).push(s.last())
    }
}

fn tras_la_ultima_coma_exec(s: &str) -> (r: String)
    ensures
        r@ == tras_la_ultima_coma(s@),
{
    let v = caracteres(s);
    let n = v.len();
    let mut i: usize = n;
    assert(v@.subrange(n as int, n as int) =~= Seq::<char>::empty());
    assert(v@.take(n as int) =~= v@);
    while i > 0
        invariant
            n == v.len(),
            i <= n,
            tras_la_ultima_coma(v@) == tras_la_ultima_coma(v@.take(i as int)) + v@.subrange(i as int, n as int),
        ensures
            i <= n,
            tras_la_ultima_coma(v@) == tras_la_ultima_coma(v@.take(i as int)) + v@.subrange(i as int, n as int),
            i == 0 || v@[i - 1] == ',',
        decreases i,
    {
        assert(v@.take(i as int).drop_last() =~= v@.take(i - 1));
        if v[i - 1] == ',' {
            break;
        }
        assert(v@.subrange(i - 1, n as int) =~= seq![v@[i - 1]] + v@.subrange(i as int, n as int));
        assert(tras_la_ultima_coma(v@.take(i - 1)).push(v@[i - 1]) + v@.subrange(i as int, n as int)
            =~= tras_la_ultima_coma(v@.take(i - 1)) + v@.subrange(i - 1, n as int));
        i = i - 1;
    }
    assert(tras_la_ultima_coma(v@.take(i as int)) =~= Seq::<char>::empty()) by {
        if i > 0 {
            assert(v@.take(i as int).last() == v@[i - 1]);
        }
    }
    assert(tras_la_ultima_coma(v@) =~= v@.subrange(i as int, n as int));
    let mut resto: Vec<char> = Vec::new();
    let mut k: usize = i;
    while k < n
        invariant
            n == v.len(),
            i <= k <= n,
            resto@ == v@.subrange(i as int, k as int),
        decreases n - k,
    {
        resto.push(v[k]);
        assert(resto@ =~= v@.subrange(i as int, k + 1));
        k = k + 1;
    }
    cadena_de(&resto)
}

/// **La imagen de una marca de agua**: los bytes del base64 que trae (la
/// parte tras la última coma de su URL `data:`), o el error que se le da a
/// quien la puso si no es base64.
pub fn bytes_de_marca(png_b64: &str) -> (r: Result<Vec<u8>, String>)
    ensures
        match desde_base64(tras_la_ultima_coma(png_b64@)) {
            Some(b) => r matches Ok(v) && v@ == b,
            None => r matches Err(m) && m@ == "La imagen de la marca de agua no se ha podido leer"@,
        },
{
    let parte = tras_la_ultima_coma_exec(png_b64);
    match de_base64(parte.as_str()) {
        Some(b) => Ok(b),
        None => Err(String::from_str("La imagen de la marca de agua no se ha podido leer")),
    }
}

/// **El texto de una marca de agua**: sin espacios a los lados. Sin texto y
/// sin imagen no hay marca que poner.
pub fn texto_de_marca(texto: &str, con_imagen: bool) -> (r: Result<String, String>)
    ensures
        recortado(texto@).len() == 0 && !con_imagen ==> (r matches Err(m) && m@ == "La marca de agua está vacía"@),
        recortado(texto@).len() > 0 || con_imagen ==> (r matches Ok(t) && t@ == recortado(texto@)),
{
    let t = recorta(texto);
    if t.as_str().is_empty() && !con_imagen {
        Err(String::from_str("La marca de agua está vacía"))
    } else {
        Ok(t)
    }
}

} // verus!

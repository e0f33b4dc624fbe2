//! Las partes de una ruta de fichero: su nombre y la carpeta que lo
//! contiene, tal como las entiende `std::path::Path`.

use vstd::prelude::*;

verus! {

/// El nombre del fichero al final de una ruta (`Path::file_name`), si lo
/// tiene: no lo tiene una ruta vacía, la raíz, ni una que acaba en `..`.
pub uninterp spec fn nombre_en_ruta(ruta: Seq<char>) -> Option<Seq<char>>;

/// La carpeta que contiene lo que nombra una ruta (`Path::parent`), si la
/// tiene: no la tienen la raíz ni la ruta vacía.
pub uninterp spec fn carpeta_en_ruta(ruta: Seq<char>) -> Option<Seq<char>>;

/// `Path::file_name` sobre la ruta, en texto (con `to_string_lossy`).
/// Promete solo que su resultado es el que nombra `nombre_en_ruta`: la
/// regla de qué es el nombre de una ruta es la de std y aquí no se escribe.
#[verifier::external_body]
pub(crate) fn nombre_de_fichero(ruta: &str) -> (r: Option<String>)
    ensures
        match r {
            Some(n) => nombre_en_ruta(ruta@) == Some(n@),
            None => nombre_en_ruta(ruta@) is None,
        },
{
    std::path::Path::new(ruta).file_name().map(|n| n.to_string_lossy().into_owned())
}

/// `Path::parent` sobre la ruta, en texto (con `to_string_lossy`). Promete
/// solo que su resultado es el que nombra `carpeta_en_ruta`.
#[verifier::external_body]
pub(crate) fn carpeta_de_fichero(ruta: &str) -> (r: Option<String>)
    ensures
        match r {
            Some(d) => carpeta_en_ruta(ruta@) == Some(d@),
            None => carpeta_en_ruta(ruta@) is None,
        },
{
    std::path::Path::new(ruta).parent().map(|d| d.to_string_lossy().into_owned())
}

/// El nombre del fichero sin su extensión (`Path::file_stem`), si lo tiene.
pub uninterp spec fn raiz_en_ruta(ruta: Seq<char>) -> Option<Seq<char>>;

/// `Path::file_stem` sobre la ruta, en texto. Promete solo que su resultado
/// es el que nombra `raiz_en_ruta`. Una ruta que llega como `&str` es UTF-8,
/// así que su raíz también lo es y `to_str` no falla.
#[verifier::external_body]
pub(crate) fn raiz_de_fichero(ruta: &str) -> (r: Option<String>)
    ensures
        match r {
            Some(n) => raiz_en_ruta(ruta@) == Some(n@),
            None => raiz_en_ruta(ruta@) is None,
        },
{
    std::path::Path::new(ruta).file_stem().and_then(|s| s.to_str()).map(|s| s.to_string())
}

} // verus!

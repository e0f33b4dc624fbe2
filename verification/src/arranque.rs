//! El arranque y el cierre de la aplicación: el PDF que llega antes de que
//! la interfaz escuche, el cierre que se frena hasta que la interfaz lo
//! confirma, y qué argumento de arranque es un PDF que abrir.

use vstd::prelude::*;
use crate::cadenas::{acaba, acaba_en, empieza, empieza_por, en_minusculas, minusculas};

verus! {

/// Evento con el que se pide a la interfaz que abra un documento.
pub const EVENTO_ABRIR: &'static str = "abrir-fichero";

/// Evento con el que se pregunta a la interfaz si se puede cerrar.
pub const EVENTO_CERRAR: &'static str = "cerrar-solicitado";

/// Lo que recuerda la aplicación entre eventos de arranque y cierre.
pub struct Arranque {
    /// La interfaz ya escucha y los eventos le llegan.
    pub ui_lista: bool,
    /// El PDF que llegó antes de que la interfaz escuchara.
    pub pendiente: Option<String>,
    /// La interfaz ya ha dicho que se puede cerrar.
    pub cierre_confirmado: bool,
}

impl Arranque {
    /// Recién arrancada: la interfaz no escucha, no hay nada pendiente y el
    /// cierre no está confirmado.
    pub fn nuevo() -> (r: Arranque)
        ensures
            !r.ui_lista,
            r.pendiente is None,
            !r.cierre_confirmado,
    {
        Arranque { ui_lista: false, pendiente: None, cierre_confirmado: false }
    }

    /// Pide a la interfaz que abra `path`. Si ya escucha, devuelve la ruta
    /// para emitirla ahora; si no, la guarda (sustituyendo la que hubiera)
    /// para cuando avise de que está lista, y no hay nada que emitir.
    pub fn pide_abrir(&mut self, path: String) -> (r: Option<String>)
        ensures
            final(self).ui_lista == old(self).ui_lista,
            final(self).cierre_confirmado == old(self).cierre_confirmado,
            old(self).ui_lista ==> (r matches Some(p) && p@ == path@)
                && final(self).pendiente == old(self).pendiente,
            !old(self).ui_lista ==> r is None && (final(self).pendiente matches Some(p) && p@ == path@),
    {
        if self.ui_lista {
            Some(path)
        } else {
            self.pendiente = Some(path);
            None
        }
    }

    /// La interfaz avisa de que ya escucha y se lleva el PDF que estuviera
    /// esperando, una sola vez.
    pub fn ui_lista(&mut self) -> (r: Option<String>)
        ensures
            final(self).ui_lista,
            final(self).pendiente is None,
            final(self).cierre_confirmado == old(self).cierre_confirmado,
            r == old(self).pendiente,
    {
        self.ui_lista = true;
        self.pendiente.take()
    }

    /// ¿Hay que frenar este cierre para preguntar a la interfaz? Solo
    /// mientras no lo haya confirmado.
    pub fn frenar_cierre(&self) -> (r: bool)
        ensures
            r == !self.cierre_confirmado,
    {
        !self.cierre_confirmado
    }

    /// La interfaz confirma el cierre: el siguiente ya no se frena.
    pub fn confirma_cierre(&mut self)
        ensures
            final(self).cierre_confirmado,
            final(self).ui_lista == old(self).ui_lista,
            final(self).pendiente == old(self).pendiente,
    {
        self.cierre_confirmado = true;
    }
}

/// ¿Es `a` un PDF que abrir: no es una opción, acaba en `.pdf` (sin mirar
/// mayúsculas) y es un fichero que existe?
pub open spec fn es_pdf_de_arranque(a: Seq<char>, existe: bool) -> bool {
    &&& !empieza_por(a, "-"@)
    &&& acaba_en(minusculas(a), ".pdf"@)
    &&& existe
}

/// El primer PDF de los argumentos de arranque, sin contar el primero (el
/// propio programa). `son_ficheros` dice, argumento por argumento, si es un
/// fichero que existe.
pub fn pdf_de_argv(args: &Vec<String>, son_ficheros: &Vec<bool>) -> (r: Option<String>)
    requires
        son_ficheros.len() == args.len(),
    ensures
        match r {
            Some(p) => exists|k: int| 1 <= k < args.len() && p@ == args@[k]@
                && es_pdf_de_arranque(args@[k]@, son_ficheros@[k])
                && forall|j: int| 1 <= j < k ==> !es_pdf_de_arranque(#[trigger] args@[j]@, son_ficheros@[j]),
            None => forall|j: int| 1 <= j < args.len() ==> !es_pdf_de_arranque(#[trigger] args@[j]@, son_ficheros@[j]),
        },
{
    let mut i: usize = 1;
    while i < args.len()
        invariant
            son_ficheros.len() == args.len(),
            1 <= i,
            forall|j: int| 1 <= j < i && j < args.len() ==> !es_pdf_de_arranque(#[trigger] args@[j]@, son_ficheros@[j]),
        decreases args.len() - i,
    {
        let a = args[i].as_str();
        let opcion = empieza(a, "-");
        let minus = en_minusculas(a);
        let pdf = acaba(minus.as_str(), ".pdf");
        if !opcion && pdf && son_ficheros[i] {
            assert(es_pdf_de_arranque(args@[i as int]@, son_ficheros@[i as int]));
            return Some(args[i].clone());
        }
        i = i + 1;
    }
    None
}

} // verus!

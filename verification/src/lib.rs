//! Vitela, editor de PDF: la lógica que no depende de la interfaz.

use vstd::prelude::*;

pub mod arbol;
pub mod arranque;
pub mod campo_nuevo;
pub mod cadenas;
pub mod campos;
pub mod asn1;
pub mod documentos;
pub mod errores;
pub mod ocsp;
pub mod fondo;
pub mod historial;
pub mod imagenes;
pub mod imprimir;
pub mod menu;
pub mod paginas;
pub mod puente;
pub mod recientes;
pub mod recuperacion;
pub mod reloj;
pub mod rutas;
pub mod xfdf;

verus! {

} // verus!

//! La hora del sistema, para fechar lo que se apunta.

use vstd::prelude::*;

verus! {

/// Lo que se dice cuando el reloj no da una hora que se pueda escribir.
pub open spec fn reloj_sin_hora() -> Seq<char> {
    "El reloj del sistema no da una hora válida"@
}

/// `SystemTime::now`, `duration_since(UNIX_EPOCH)` y
/// `chrono::DateTime::from_timestamp(..).to_rfc3339()`: el instante de
/// ahora en RFC 3339, en UTC. Si el reloj marca una hora anterior a 1970,
/// o una que chrono no sabe escribir, no hay hora. Depende del reloj, así
/// que solo promete lo que vale de cualquier lectura: que la hora, si la
/// hay, no es un texto vacío (siempre lleva fecha y hora).
#[verifier::external_body]
pub(crate) fn ahora() -> (r: Option<String>)
    ensures
        r matches Some(s) ==> s@.len() > 0,
{
    let d = std::time::SystemTime::now().duration_since(std::time::UNIX_EPOCH).ok()?;
    let segundos = i64::try_from(d.as_secs()).ok()?;
    chrono::DateTime::from_timestamp(segundos, d.subsec_nanos()).map(|t| t.to_rfc3339())
}

} // verus!

//! Deshacer y rehacer por instantáneas de la copia de trabajo.
//!
//! Antes de cada mutación se guarda una instantánea del fichero entero y
//! deshacer intercambia la copia actual por la instantánea. Este módulo es
//! la contabilidad de esas instantáneas: las dos pilas, el contador que da
//! nombre a cada fichero y las decisiones de qué instantánea se borra,
//! cuál se restaura y cuál vuelve a la pila contraria. Copiar, renombrar y
//! borrar los ficheros lo hace quien llama, con lo que aquí se decide.
//!
//! Cada paso guarda además la protección que tenía el documento en ese
//! momento (lo que del documento no vive en el fichero), de un tipo `P` que
//! este módulo no necesita conocer.

use vstd::prelude::*;
use crate::cadenas::{decimal, decimal_spec};
use crate::errores::{mensaje_llano, mensaje_llano_spec};
use crate::rutas::{nombre_de_fichero, nombre_en_ruta};

verus! {

/// Tope de pasos de deshacer que se conservan.
pub const MAX_PASOS: usize = 20;

/// Por encima de este tamaño no se toman instantáneas (el documento queda
/// sin deshacer) para no llenar el disco donde copiar es copiar de verdad.
pub const MAX_BYTES: u64 = 536870912;

/// ¿Se toma instantánea de un documento de `tam` bytes?
pub fn cabe_instantanea(tam: u64) -> (r: bool)
    ensures
        r == (tam <= MAX_BYTES),
{
    tam <= MAX_BYTES
}

/// Un paso: el número de su instantánea y la protección que tenía el
/// documento cuando se tomó.
pub struct Paso<P> {
    pub instantanea: u64,
    pub proteccion: Option<P>,
}

/// Las dos pilas de un documento, de la más antigua a la más reciente, y el
/// contador con el que se numeran las instantáneas.
pub struct Historial<P> {
    pub deshacer: Vec<Paso<P>>,
    pub rehacer: Vec<Paso<P>>,
    pub seq: u64,
}

/// Lo que se enseña del historial: pasos en cada dirección y páginas del
/// documento tras la operación.
#[derive(PartialEq, Eq, Structural, Clone, Copy, Debug)]
pub struct HistoryState {
    pub undo: u16,
    pub redo: u16,
    pub page_count: u16,
}

/// El historial visto como dos sucesiones de pasos y un contador.
pub struct ModeloHistorial<P> {
    pub deshacer: Seq<Paso<P>>,
    pub rehacer: Seq<Paso<P>>,
    pub seq: nat,
}

impl<P> View for Historial<P> {
    type V = ModeloHistorial<P>;

    open spec fn view(&self) -> ModeloHistorial<P> {
        ModeloHistorial { deshacer: self.deshacer@, rehacer: self.rehacer@, seq: self.seq as nat }
    }
}

/// Tomar una instantánea antes de mutar: entra en la pila de deshacer con el
/// número siguiente, y la pila de rehacer se vacía (una mutación nueva abre
/// otra rama).
pub open spec fn apilado<P>(m: ModeloHistorial<P>, proteccion: Option<P>) -> ModeloHistorial<P> {
    ModeloHistorial {
        deshacer: m.deshacer.push(Paso { instantanea: m.seq as u64, proteccion }),
        rehacer: Seq::empty(),
        seq: m.seq + 1,
    }
}

/// Cuántos pasos sobran por el principio de la pila de deshacer.
pub open spec fn sobrantes(n: nat) -> nat {
    if n > MAX_PASOS { (n - MAX_PASOS) as nat } else { 0 }
}

/// La pila de deshacer recortada al tope por el lado de los más antiguos.
pub open spec fn recortado<P>(m: ModeloHistorial<P>) -> ModeloHistorial<P> {
    ModeloHistorial {
        deshacer: m.deshacer.skip(sobrantes(m.deshacer.len()) as int),
        rehacer: m.rehacer,
        seq: m.seq,
    }
}

/// Sin el paso más reciente de deshacer (si lo hay).
pub open spec fn sin_ultimo<P>(m: ModeloHistorial<P>) -> ModeloHistorial<P> {
    ModeloHistorial {
        deshacer: if m.deshacer.len() > 0 { m.deshacer.drop_last() } else { m.deshacer },
        rehacer: m.rehacer,
        seq: m.seq,
    }
}

/// La pila de la que se saca: deshacer hacia atrás, rehacer hacia delante.
pub open spec fn origen_de<P>(m: ModeloHistorial<P>, hacia_atras: bool) -> Seq<Paso<P>> {
    if hacia_atras { m.deshacer } else { m.rehacer }
}

/// Un intercambio completo: se saca el último paso de la pila de origen (su
/// instantánea pasa a ser la copia de trabajo) y la copia que había se
/// guarda como instantánea nueva en la pila contraria, con la protección
/// que tenía.
pub open spec fn intercambiado<P>(m: ModeloHistorial<P>, hacia_atras: bool, proteccion: Option<P>) -> ModeloHistorial<P> {
    let vuelve = Paso { instantanea: m.seq as u64, proteccion };
    if hacia_atras {
        ModeloHistorial { deshacer: m.deshacer.drop_last(), rehacer: m.rehacer.push(vuelve), seq: m.seq + 1 }
    } else {
        ModeloHistorial { deshacer: m.deshacer.push(vuelve), rehacer: m.rehacer.drop_last(), seq: m.seq + 1 }
    }
}

/// Cuántos de los últimos pasos se funden al agrupar `pasos`.
pub open spec fn agrupados(len: nat, pasos: nat) -> nat {
    if pasos < len { pasos } else { len }
}

/// Los últimos `pasos` pasos fundidos en uno: se conserva el más antiguo
/// del grupo, que es el estado anterior a todos.
pub open spec fn agrupado<P>(m: ModeloHistorial<P>, pasos: nat) -> ModeloHistorial<P> {
    let n = agrupados(m.deshacer.len(), pasos);
    ModeloHistorial {
        deshacer: if n > 1 { m.deshacer.take(m.deshacer.len() - n + 1) } else { m.deshacer },
        rehacer: m.rehacer,
        seq: m.seq,
    }
}

impl<P> Historial<P> {
    /// Un historial vacío.
    pub fn nuevo() -> (h: Self)
        ensures
            h@.deshacer.len() == 0,
            h@.rehacer.len() == 0,
            h@.seq == 0,
    {
        Historial { deshacer: Vec::new(), rehacer: Vec::new(), seq: 0 }
    }

    /// Toma el número de la instantánea previa a una mutación y apila el
    /// paso. Devuelve ese número y los pasos de rehacer que se descartan,
    /// cuyas instantáneas hay que borrar.
    pub fn empuja(&mut self, proteccion: Option<P>) -> (r: (u64, Vec<Paso<P>>))
        requires
            old(self).seq < u64::MAX,
        ensures
            final(self)@ == apilado(old(self)@, proteccion),
            r.0 == old(self).seq,
            r.1@ == old(self)@.rehacer,
    {
        let n = self.seq;
        let descartados = self.rehacer.split_off(0);
        self.deshacer.push(Paso { instantanea: n, proteccion });
        self.seq = n + 1;
        assert(self.rehacer@ =~= Seq::<Paso<P>>::empty());
        assert(descartados@ =~= old(self)@.rehacer);
        (n, descartados)
    }

    /// Recorta la pila de deshacer al tope, quitando los más antiguos.
    /// Devuelve los quitados, cuyas instantáneas hay que borrar.
    pub fn recorta(&mut self) -> (quitados: Vec<Paso<P>>)
        ensures
            final(self)@ == recortado(old(self)@),
            quitados@ == old(self)@.deshacer.take(sobrantes(old(self)@.deshacer.len()) as int),
            final(self)@.deshacer.len() <= MAX_PASOS,
    {
        if self.deshacer.len() > MAX_PASOS {
            let k = self.deshacer.len() - MAX_PASOS;
            let mut quitados = self.deshacer.split_off(k);
            std::mem::swap(&mut self.deshacer, &mut quitados);
            assert(self.deshacer@ =~= old(self)@.deshacer.skip(k as int));
            quitados
        } else {
            assert(self.deshacer@ =~= old(self)@.deshacer.skip(0));
            Vec::new()
        }
    }

    /// Saca el paso más reciente de deshacer (mutación fallida, o que no ha
    /// cambiado nada).
    pub fn descarta_ultimo(&mut self) -> (r: Option<Paso<P>>)
        ensures
            final(self)@ == sin_ultimo(old(self)@),
            match r {
                Some(p) => old(self)@.deshacer.len() > 0 && p == old(self)@.deshacer.last(),
                None => old(self)@.deshacer.len() == 0,
            },
    {
        self.deshacer.pop()
    }

    /// Deshace (`hacia_atras`) o rehace. Saca el último paso de su pila, que
    /// es la instantánea que pasa a ser la copia de trabajo, y apila en la
    /// contraria un paso nuevo para la copia actual, con su protección.
    /// Devuelve el paso sacado y el número de la instantánea nueva. Si no hay
    /// pasos, no cambia nada y dice que no hay nada que hacer.
    pub fn intercambia(&mut self, hacia_atras: bool, proteccion: Option<P>) -> (r: Result<(Paso<P>, u64), String>)
        requires
            old(self).seq < u64::MAX,
        ensures
            origen_de(old(self)@, hacia_atras).len() == 0 <==> r is Err,
            match r {
                Ok((origen, nueva)) => {
                    &&& origen == origen_de(old(self)@, hacia_atras).last()
                    &&& nueva == old(self).seq
                    &&& final(self)@ == intercambiado(old(self)@, hacia_atras, proteccion)
                },
                Err(e) => {
                    &&& final(self)@ == old(self)@
                    &&& e@ == (if hacia_atras { "Nada que deshacer"@ } else { "Nada que rehacer"@ })
                },
            },
    {
        let sacado = if hacia_atras { self.deshacer.pop() } else { self.rehacer.pop() };
        match sacado {
            None => {
                if hacia_atras {
                    Err(String::from_str("Nada que deshacer"))
                } else {
                    Err(String::from_str("Nada que rehacer"))
                }
            },
            Some(origen) => {
                let n = self.seq;
                self.seq = n + 1;
                let vuelve = Paso { instantanea: n, proteccion };
                if hacia_atras {
                    self.rehacer.push(vuelve);
                } else {
                    self.deshacer.push(vuelve);
                }
                Ok((origen, n))
            },
        }
    }

    /// El intercambio no ha podido restaurar el fichero: la instantánea
    /// sacada vuelve a su pila y el paso nuevo se retira (su copia no llegó
    /// a hacer falta). Devuelve ese paso retirado.
    pub fn revierte_intercambio(&mut self, hacia_atras: bool, origen: Paso<P>) -> (r: Option<Paso<P>>)
        ensures
            origen_de(old(self)@, !hacia_atras).len() > 0 ==> r == Some(origen_de(old(self)@, !hacia_atras).last()),
            origen_de(old(self)@, !hacia_atras).len() == 0 ==> r is None,
            hacia_atras ==> final(self)@.deshacer == old(self)@.deshacer.push(origen),
            hacia_atras ==> final(self)@.rehacer == sin_cola(old(self)@.rehacer),
            !hacia_atras ==> final(self)@.rehacer == old(self)@.rehacer.push(origen),
            !hacia_atras ==> final(self)@.deshacer == sin_cola(old(self)@.deshacer),
            final(self)@.seq == old(self)@.seq,
    {
        if hacia_atras {
            let r = self.rehacer.pop();
            self.deshacer.push(origen);
            r
        } else {
            let r = self.deshacer.pop();
            self.rehacer.push(origen);
            r
        }
    }

    /// Funde los últimos `pasos` pasos de deshacer en uno. Devuelve los que
    /// sobran, cuyas instantáneas hay que borrar.
    pub fn agrupa(&mut self, pasos: u16) -> (quitados: Vec<Paso<P>>)
        ensures
            final(self)@ == agrupado(old(self)@, pasos as nat),
            agrupados(old(self)@.deshacer.len(), pasos as nat) > 1 ==> quitados@
                == old(self)@.deshacer.skip(old(self)@.deshacer.len() - agrupados(old(self)@.deshacer.len(), pasos as nat) + 1),
            agrupados(old(self)@.deshacer.len(), pasos as nat) <= 1 ==> quitados@.len() == 0,
    {
        let len = self.deshacer.len();
        let n: usize = if (pasos as usize) < len { pasos as usize } else { len };
        if n > 1 {
            let desde = len - n + 1;
            let quitados = self.deshacer.split_off(desde);
            assert(self.deshacer@ =~= old(self)@.deshacer.take(desde as int));
            assert(quitados@ =~= old(self)@.deshacer.skip(desde as int));
            quitados
        } else {
            Vec::new()
        }
    }
}

/// Una sucesión sin su último elemento, si tiene.
pub open spec fn sin_cola<A>(s: Seq<A>) -> Seq<A> {
    if s.len() > 0 { s.drop_last() } else { s }
}

/// Los pasos disponibles en cada dirección y las páginas del documento.
pub fn estado<P>(h: &Historial<P>, page_count: u16) -> (r: HistoryState)
    ensures
        r.undo == h.deshacer@.len() as u16,
        r.redo == h.rehacer@.len() as u16,
        r.page_count == page_count,
{
    HistoryState { undo: h.deshacer.len() as u16, redo: h.rehacer.len() as u16, page_count }
}

/// Retira el paso de una mutación que ha salido bien y no ha cambiado nada:
/// ofrecer un deshacer que no hace nada visible es peor que no ofrecerlo.
pub fn retira_paso<P>(h: &mut Historial<P>) -> (r: Option<Paso<P>>)
    ensures
        final(h)@ == sin_ultimo(old(h)@),
        match r {
            Some(p) => old(h)@.deshacer.len() > 0 && p == old(h)@.deshacer.last(),
            None => old(h)@.deshacer.len() == 0,
        },
{
    h.descarta_ultimo()
}

/// Lo que queda tras una mutación que ya tomó su instantánea: si ha ido
/// bien, la pila se recorta al tope; si ha fallado, la instantánea nueva se
/// retira (el disco no ha cambiado) y el error se cuenta en llano. Devuelve
/// el resultado y los pasos cuyas instantáneas hay que borrar.
pub fn mutacion<P, R>(h: &mut Historial<P>, resultado: Result<R, String>) -> (r: (Result<R, String>, Vec<Paso<P>>))
    ensures
        match resultado {
            Ok(v) => {
                &&& r.0 == Ok::<R, String>(v)
                &&& final(h)@ == recortado(old(h)@)
                &&& r.1@ == old(h)@.deshacer.take(sobrantes(old(h)@.deshacer.len()) as int)
            },
            Err(e) => {
                &&& r.0 is Err
                &&& r.0->Err_0@ == mensaje_llano_spec(e@)
                &&& final(h)@ == sin_ultimo(old(h)@)
                &&& (old(h)@.deshacer.len() > 0 ==> r.1@ == seq![old(h)@.deshacer.last()])
                &&& (old(h)@.deshacer.len() == 0 ==> r.1@.len() == 0)
            },
        },
{
    match resultado {
        Ok(v) => {
            let quitados = h.recorta();
            (Ok(v), quitados)
        },
        Err(e) => {
            let mut quitados = Vec::new();
            match h.descarta_ultimo() {
                Some(p) => quitados.push(p),
                None => {},
            }
            (Err(mensaje_llano(e.as_str())), quitados)
        },
    }
}

/// El nombre con el que se apuntan las instantáneas de un documento: el de
/// su copia de trabajo, o «documento» si la ruta no lo tiene.
pub open spec fn nombre_base_spec(work_path: Seq<char>) -> Seq<char> {
    match nombre_en_ruta(work_path) {
        Some(n) => n,
        None => "documento"@,
    }
}

pub fn nombre_base(work_path: &str) -> (r: String)
    ensures
        r@ == nombre_base_spec(work_path@),
{
    match nombre_de_fichero(work_path) {
        Some(n) => n,
        None => String::from_str("documento"),
    }
}

/// El fichero de la instantánea número `seq` de un documento, dentro de la
/// carpeta de instantáneas: `<carpeta>/<nombre>.snap<seq>`.
pub open spec fn ruta_instantanea_spec(directorio: Seq<char>, work_path: Seq<char>, seq: nat) -> Seq<char> {
    let carpeta = if directorio.len() > 0 && directorio.last() == '/' { directorio } else { directorio.push('/') };
    carpeta + nombre_base_spec(work_path) + ".snap"@ + decimal_spec(seq)
}

pub fn ruta_instantanea(directorio: &str, work_path: &str, seq: u64) -> (r: String)
    ensures
        r@ == ruta_instantanea_spec(directorio@, work_path@, seq as nat),
{
    proof { reveal_strlit(".snap"); }
    let mut r = String::from_str(directorio);
    let n = directorio.unicode_len();
    if !(n > 0 && directorio.get_char(n - 1) == '/') {
        r.push('/');
    }
    let base = nombre_base(work_path);
    r.append(base.as_str());
    r.append(".snap");
    let num = decimal(seq);
    r.append(num.as_str());
    r
}

/// Los historiales de todos los documentos abiertos, uno por copia de
/// trabajo.
pub struct Historiales<P> {
    pub entradas: Vec<(String, Historial<P>)>,
}

/// ¿Hay en las entradas alguna de esa copia de trabajo?
pub open spec fn tiene_entrada<P>(entradas: Seq<(String, Historial<P>)>, work_path: Seq<char>) -> bool {
    exists|i: int| 0 <= i < entradas.len() && entradas[i].0@ == work_path
}

/// Ninguna copia de trabajo aparece dos veces.
pub open spec fn claves_unicas<P>(entradas: Seq<(String, Historial<P>)>) -> bool {
    forall|i: int, j: int| 0 <= i < j < entradas.len() ==> entradas[i].0@ != entradas[j].0@
}

impl<P> Historiales<P> {
    pub fn nuevos() -> (r: Self)
        ensures
            r.entradas@.len() == 0,
    {
        Historiales { entradas: Vec::new() }
    }

    /// Dónde está la entrada de una copia de trabajo, si la hay.
    pub fn busca(&self, work_path: &str) -> (r: Option<usize>)
        ensures
            match r {
                Some(i) => i < self.entradas@.len() && self.entradas@[i as int].0@ == work_path@,
                None => !tiene_entrada(self.entradas@, work_path@),
            },
    {
        let clave = String::from_str(work_path);
        let mut i: usize = 0;
        while i < self.entradas.len()
            invariant
                i <= self.entradas@.len(),
                clave@ == work_path@,
                forall|k: int| 0 <= k < i ==> self.entradas@[k].0@ != work_path@,
            decreases self.entradas@.len() - i,
        {
            if self.entradas[i].0 == clave {
                return Some(i);
            }
            i = i + 1;
        }
        None
    }
}

/// La entrada del historial de una copia de trabajo, creándola vacía si no
/// la había. Devuelve su posición; las demás entradas no se tocan.
pub fn con<P>(mapa: &mut Historiales<P>, work_path: &str) -> (i: usize)
    requires
        claves_unicas(old(mapa).entradas@),
    ensures
        claves_unicas(final(mapa).entradas@),
        i < final(mapa).entradas@.len(),
        final(mapa).entradas@[i as int].0@ == work_path@,
        tiene_entrada(old(mapa).entradas@, work_path@) ==> final(mapa).entradas@ == old(mapa).entradas@,
        !tiene_entrada(old(mapa).entradas@, work_path@) ==> {
            &&& final(mapa).entradas@.len() == old(mapa).entradas@.len() + 1
            &&& final(mapa).entradas@.take(old(mapa).entradas@.len() as int) == old(mapa).entradas@
            &&& final(mapa).entradas@[i as int].1@.deshacer.len() == 0
            &&& final(mapa).entradas@[i as int].1@.rehacer.len() == 0
            &&& final(mapa).entradas@[i as int].1@.seq == 0
        },
{
    match mapa.busca(work_path) {
        Some(i) => i,
        None => {
            let n = mapa.entradas.len();
            mapa.entradas.push((String::from_str(work_path), Historial::nuevo()));
            assert(final(mapa).entradas@.take(n as int) =~= old(mapa).entradas@);
            n
        },
    }
}

/// Olvida el historial de una copia de trabajo (al cerrar el documento) y
/// lo devuelve, para borrar sus instantáneas.
pub fn limpia<P>(mapa: &mut Historiales<P>, work_path: &str) -> (r: Option<Historial<P>>)
    requires
        claves_unicas(old(mapa).entradas@),
    ensures
        claves_unicas(final(mapa).entradas@),
        !tiene_entrada(final(mapa).entradas@, work_path@),
        tiene_entrada(old(mapa).entradas@, work_path@) <==> r is Some,
        forall|k: Seq<char>| k != work_path@ ==>
            (tiene_entrada(final(mapa).entradas@, k) <==> tiene_entrada(old(mapa).entradas@, k)),
{
    match mapa.busca(work_path) {
        Some(i) => {
            let (_, h) = mapa.entradas.remove(i);
            assert forall|k: Seq<char>| k != work_path@ implies
                (tiene_entrada(final(mapa).entradas@, k) <==> tiene_entrada(old(mapa).entradas@, k)) by {
                if tiene_entrada(old(mapa).entradas@, k) {
                    let j = choose|j: int| 0 <= j < old(mapa).entradas@.len() && old(mapa).entradas@[j].0@ == k;
                    if j < i { assert(final(mapa).entradas@[j].0@ == k); }
                    else { assert(final(mapa).entradas@[j - 1].0@ == k); }
                }
                if tiene_entrada(final(mapa).entradas@, k) {
                    let j = choose|j: int| 0 <= j < final(mapa).entradas@.len() && final(mapa).entradas@[j].0@ == k;
                    if j < i { assert(old(mapa).entradas@[j].0@ == k); }
                    else { assert(old(mapa).entradas@[j + 1].0@ == k); }
                }
            }
            assert forall|j: int| 0 <= j < final(mapa).entradas@.len() implies final(mapa).entradas@[j].0@ != work_path@ by {
                if j < i { assert(old(mapa).entradas@[j].0@ != old(mapa).entradas@[i as int].0@); }
                else { assert(old(mapa).entradas@[j + 1].0@ != old(mapa).entradas@[i as int].0@); }
            }
            Some(h)
        },
        None => None,
    }
}

// ---------------------------------------------------------------------
// Las leyes del historial
// ---------------------------------------------------------------------

/// Deshacer y después rehacer deja las dos pilas como estaban: la pila de
/// rehacer vuelve a ser la de antes, la de deshacer vuelve a tener los
/// mismos pasos salvo el último, que es la instantánea de la copia que
/// había antes de deshacer; y lo que rehacer restaura es justo la copia que
/// deshacer guardó.
pub proof fn ley_deshacer_y_rehacer<P>(m: ModeloHistorial<P>, p1: Option<P>, p2: Option<P>)
    requires
        m.deshacer.len() > 0,
    ensures
        ({
            let m1 = intercambiado(m, true, p1);
            let m2 = intercambiado(m1, false, p2);
            &&& m1.rehacer.len() > 0
            &&& m1.rehacer.last() == Paso { instantanea: m.seq as u64, proteccion: p1 }
            &&& m2.rehacer == m.rehacer
            &&& m2.deshacer.len() == m.deshacer.len()
            &&& m2.deshacer.drop_last() == m.deshacer.drop_last()
            &&& m2.deshacer.last() == Paso { instantanea: (m.seq + 1) as u64, proteccion: p2 }
        }),
{
    let m1 = intercambiado(m, true, p1);
    let m2 = intercambiado(m1, false, p2);
    assert(m2.rehacer =~= m.rehacer);
    assert(m2.deshacer.drop_last() =~= m.deshacer.drop_last());
}

/// Una mutación que falla no deja paso: tomar la instantánea y retirarla
/// devuelve la pila de deshacer a como estaba (la de rehacer, en cambio, ya
/// se ha vaciado al empezar la rama nueva).
pub proof fn ley_mutacion_fallida<P>(m: ModeloHistorial<P>, p: Option<P>)
    ensures
        sin_ultimo(apilado(m, p)).deshacer == m.deshacer,
        sin_ultimo(apilado(m, p)).rehacer.len() == 0,
{
    assert(sin_ultimo(apilado(m, p)).deshacer =~= m.deshacer);
}

/// Una mutación que sale bien deja exactamente un paso más, recortado al
/// tope: el último es la instantánea tomada antes de mutar, y si sobraba
/// alguno se va el más antiguo.
pub proof fn ley_mutacion_con_exito<P>(m: ModeloHistorial<P>, p: Option<P>)
    requires
        m.deshacer.len() <= MAX_PASOS,
    ensures
        ({
            let r = recortado(apilado(m, p));
            &&& r.deshacer.len() == if m.deshacer.len() < MAX_PASOS { m.deshacer.len() + 1 } else { MAX_PASOS as nat }
            &&& r.deshacer.last() == Paso { instantanea: m.seq as u64, proteccion: p }
            &&& r.rehacer.len() == 0
            &&& (m.deshacer.len() < MAX_PASOS ==> r.deshacer.drop_last() == m.deshacer)
            &&& (m.deshacer.len() == MAX_PASOS ==> r.deshacer.drop_last() == m.deshacer.skip(1))
        }),
{
    let r = recortado(apilado(m, p));
    if m.deshacer.len() < MAX_PASOS {
        assert(r.deshacer.drop_last() =~= m.deshacer);
    } else {
        assert(r.deshacer.drop_last() =~= m.deshacer.skip(1));
    }
}

/// Agrupar los últimos pasos deja uno solo en su lugar, el más antiguo del
/// grupo: un deshacer lleva al estado anterior a todos ellos.
pub proof fn ley_agrupar<P>(m: ModeloHistorial<P>, pasos: nat)
    requires
        1 < pasos <= m.deshacer.len(),
    ensures
        agrupado(m, pasos).deshacer.len() == m.deshacer.len() - pasos + 1,
        agrupado(m, pasos).deshacer.last() == m.deshacer[m.deshacer.len() - pasos],
        agrupado(m, pasos).deshacer.drop_last() == m.deshacer.take(m.deshacer.len() - pasos),
        agrupado(m, pasos).rehacer == m.rehacer,
{
    assert(agrupado(m, pasos).deshacer.drop_last() =~= m.deshacer.take(m.deshacer.len() - pasos));
}

} // verus!

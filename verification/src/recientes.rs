//! La lista de documentos recientes: los ocho últimos que se abrieron, del
//! más reciente al más antiguo, sin repetidos. Se guarda la ruta y cuándo se
//! abrió; el nombre, la carpeta y si sigue en su sitio se calculan al listar,
//! para que mover o renombrar un fichero por fuera no deje datos rancios.

use vstd::prelude::*;
use crate::cadenas::{mismo_texto, recorta, recortado};
use crate::reloj::{ahora, reloj_sin_hora};
use crate::rutas::{carpeta_de_fichero, carpeta_en_ruta, nombre_de_fichero, nombre_en_ruta};

verus! {

/// Tope de la lista.
pub const MAXIMO: usize = 8;

/// Lo que se guarda de cada documento: la ruta y cuándo se abrió.
#[derive(Clone, Debug)]
pub struct Entrada {
    pub path: String,
    pub opened_at: String,
}

impl View for Entrada {
    type V = (Seq<char>, Seq<char>);

    open spec fn view(&self) -> (Seq<char>, Seq<char>) {
        (self.path@, self.opened_at@)
    }
}

/// Lo que se enseña de cada documento reciente.
#[derive(Clone, Debug)]
pub struct Reciente {
    pub path: String,
    /// Nombre del fichero, para la línea principal.
    pub name: String,
    /// Carpeta que lo contiene, para la línea secundaria.
    pub dir: String,
    /// Si sigue estando donde se dejó.
    pub exists: bool,
    /// Cuándo se abrió por última vez, en ISO 8601.
    pub opened_at: String,
}

/// Una entrada vista como (ruta, cuándo).
pub type Apunte = (Seq<char>, Seq<char>);

/// La lista vista como una sucesión de (ruta, cuándo).
pub open spec fn vista(l: Seq<Entrada>) -> Seq<Apunte> {
    l.map_values(|e: Entrada| e@)
}

/// ¿No es de la ruta `p` esta entrada?
pub open spec fn ajena(p: Seq<char>) -> spec_fn(Apunte) -> bool {
    |e: Apunte| e.0 != p
}

/// La lista sin las entradas de la ruta `p`, en el orden que tenían.
pub open spec fn quitada(l: Seq<Apunte>, p: Seq<char>) -> Seq<Apunte> {
    l.filter(ajena(p))
}

/// La lista con `p` al principio, abierta en `cuando`, sin su entrada
/// anterior y cortada en el tope.
pub open spec fn tocada(l: Seq<Apunte>, p: Seq<char>, cuando: Seq<char>) -> Seq<Apunte> {
    let t = seq![(p, cuando)] + quitada(l, p);
    if t.len() <= MAXIMO { t } else { t.take(MAXIMO as int) }
}

/// ¿Sale cada ruta una vez como mucho?
pub open spec fn sin_repetidos(l: Seq<Apunte>) -> bool {
    forall|i: int, j: int| 0 <= i < j < l.len() ==> #[trigger] l[i].0 != #[trigger] l[j].0
}

/// Las entradas de la lista que no son de la ruta `p`.
fn sin_la_ruta(lista: &Vec<Entrada>, p: &str) -> (r: Vec<Entrada>)
    ensures
        vista(r@) == quitada(vista(lista@), p@),
{
    let mut r: Vec<Entrada> = Vec::new();
    let mut i: usize = 0;
    while i < lista.len()
        invariant
            i <= lista.len(),
            vista(r@) == quitada(vista(lista@).take(i as int), p@),
        decreases lista.len() - i,
    {
        let e = &lista[i];
        proof {
            assert(vista(lista@).take(i + 1) =~= vista(lista@).take(i as int).push(e@));
            vista(lista@).take(i as int).lemma_filter_push(e@, ajena(p@));
        }
        if !mismo_texto(e.path.as_str(), p) {
            r.push(Entrada { path: e.path.clone(), opened_at: e.opened_at.clone() });
            assert(vista(r@) =~= quitada(vista(lista@).take(i as int), p@).push(e@));
        }
        i = i + 1;
    }
    assert(vista(lista@).take(lista.len() as int) =~= vista(lista@));
    r
}

/// Sube `path` (sin espacios a los lados) al principio de la lista, o lo
/// mete si no estaba, con `cuando` como fecha de apertura, y recorta la
/// lista al tope. Una ruta vacía es un error.
pub fn toca_con(lista: Vec<Entrada>, path: &str, cuando: String) -> (r: Result<Vec<Entrada>, String>)
    ensures
        recortado(path@).len() == 0 ==> (r matches Err(m) && m@ == "Ruta vacía"@),
        recortado(path@).len() > 0 ==> (r matches Ok(l)
            && vista(l@) == tocada(vista(lista@), recortado(path@), cuando@)),
{
    let p = recorta(path);
    if p.as_str().is_empty() {
        return Err(String::from_str("Ruta vacía"));
    }
    let resto = sin_la_ruta(&lista, p.as_str());
    let mut r: Vec<Entrada> = Vec::new();
    r.push(Entrada { path: p, opened_at: cuando });
    let mut i: usize = 0;
    while i < resto.len()
        invariant
            i <= resto.len(),
            r@.len() == i + 1,
            vista(r@) == seq![(recortado(path@), cuando@)] + vista(resto@).take(i as int),
        decreases resto.len() - i,
    {
        let e = &resto[i];
        let ghost antes = r@;
        r.push(Entrada { path: e.path.clone(), opened_at: e.opened_at.clone() });
        assert(r@ == antes.push(r@[i + 1]));
        assert(vista(r@) =~= vista(antes).push(e@));
        assert(vista(r@) =~= seq![(recortado(path@), cuando@)] + vista(resto@).take(i + 1));
        i = i + 1;
    }
    assert(vista(resto@).take(resto.len() as int) =~= vista(resto@));
    r.truncate(MAXIMO);
    assert(vista(r@) =~= tocada(vista(lista@), recortado(path@), cuando@));
    Ok(r)
}

/// Registra `path` como recién abierto ahora. La fecha la da el reloj:
/// el contrato es el de `toca_con`, con la fecha que sea. Si el reloj no da
/// hora, una ruta que no es vacía no se apunta y se dice por qué.
pub fn toca(lista: Vec<Entrada>, path: &str) -> (r: Result<Vec<Entrada>, String>)
    ensures
        recortado(path@).len() == 0 ==> (r matches Err(m) && m@ == "Ruta vacía"@),
        recortado(path@).len() > 0 ==> (
            (r matches Ok(l) && exists|cuando: Seq<char>|
                cuando.len() > 0 && vista(l@) == tocada(vista(lista@), recortado(path@), cuando))
            || (r matches Err(m) && m@ == reloj_sin_hora())),
{
    match ahora() {
        Some(cuando) => {
            let ghost c = cuando@;
            let r = toca_con(lista, path, cuando);
            proof {
                if recortado(path@).len() > 0 {
                    let l = r->Ok_0;
                    assert(c.len() > 0 && vista(l@) == tocada(vista(lista@), recortado(path@), c));
                }
            }
            r
        },
        None => {
            let limpio = recorta(path);
            if limpio.as_str().is_empty() {
                Err(String::from_str("Ruta vacía"))
            } else {
                Err(String::from_str("El reloj del sistema no da una hora válida"))
            }
        },
    }
}

/// Quita de la lista las entradas de `path`; las demás quedan como estaban.
pub fn quita(lista: Vec<Entrada>, path: &str) -> (r: Vec<Entrada>)
    ensures
        vista(r@) == quitada(vista(lista@), path@),
{
    sin_la_ruta(&lista, path)
}

/// El nombre que se enseña de una ruta: el del fichero, o la ruta entera
/// si no tiene.
pub open spec fn nombre_visible(ruta: Seq<char>) -> Seq<char> {
    match nombre_en_ruta(ruta) {
        Some(n) => n,
        None => ruta,
    }
}

/// La carpeta que se enseña de una ruta, o nada si no tiene.
pub open spec fn carpeta_visible(ruta: Seq<char>) -> Seq<char> {
    match carpeta_en_ruta(ruta) {
        Some(d) => d,
        None => Seq::empty(),
    }
}

/// ¿Dice `r` lo que hay que enseñar de la entrada `e`, que existe o no?
pub open spec fn detalle_de(e: Apunte, existe: bool, r: Reciente) -> bool {
    &&& r.path@ == e.0
    &&& r.opened_at@ == e.1
    &&& r.name@ == nombre_visible(e.0)
    &&& r.dir@ == carpeta_visible(e.0)
    &&& r.exists == existe
}

/// Lo que se enseña de una entrada, sabiendo si el fichero sigue en su sitio.
pub fn detalla_una(e: &Entrada, existe: bool) -> (r: Reciente)
    ensures
        detalle_de(e@, existe, r),
{
    let ruta = e.path.as_str();
    let name = match nombre_de_fichero(ruta) {
        Some(n) => n,
        None => e.path.clone(),
    };
    let dir = match carpeta_de_fichero(ruta) {
        Some(d) => d,
        None => String::new(),
    };
    Reciente { path: e.path.clone(), name, dir, exists: existe, opened_at: e.opened_at.clone() }
}

/// Lo que se enseña de la lista, en su orden. `existen` dice, entrada por
/// entrada, si el fichero sigue en su sitio.
pub fn detalla(lista: &Vec<Entrada>, existen: &Vec<bool>) -> (r: Vec<Reciente>)
    requires
        existen.len() == lista.len(),
    ensures
        r.len() == lista.len(),
        forall|i: int| 0 <= i < r.len() ==> detalle_de(#[trigger] lista@[i]@, existen@[i], r@[i]),
{
    let mut r: Vec<Reciente> = Vec::new();
    let mut i: usize = 0;
    while i < lista.len()
        invariant
            existen.len() == lista.len(),
            i <= lista.len(),
            r.len() == i,
            forall|k: int| 0 <= k < i ==> detalle_de(#[trigger] lista@[k]@, existen@[k], r@[k]),
        decreases lista.len() - i,
    {
        let d = detalla_una(&lista[i], existen[i]);
        r.push(d);
        i = i + 1;
    }
    r
}

/// Lo que queda tras quitar una ruta no la contiene, y guarda, en su
/// orden, todas las demás entradas.
proof fn quitada_sin_la_ruta(l: Seq<Apunte>, p: Seq<char>)
    ensures
        forall|k: int| 0 <= k < quitada(l, p).len() ==> (#[trigger] quitada(l, p)[k]).0 != p,
        forall|k: int| 0 <= k < quitada(l, p).len() ==> l.contains(#[trigger] quitada(l, p)[k]),
        forall|k: int| 0 <= k < l.len() && l[k].0 != p ==> quitada(l, p).contains(#[trigger] l[k]),
        quitada(l, p).len() <= l.len(),
        sin_repetidos(l) ==> sin_repetidos(quitada(l, p)),
    decreases l.len(),
{
    broadcast use vstd::seq_lib::group_filter_ensures;
    let f = quitada(l, p);
    assert forall|k: int| 0 <= k < f.len() implies (#[trigger] f[k]).0 != p by {
        l.lemma_filter_pred(ajena(p), k);
    }
    assert forall|k: int| 0 <= k < f.len() implies l.contains(#[trigger] f[k]) by {
        assert(f.contains(f[k]));
        l.lemma_filter_contains_rev(ajena(p), f[k]);
    }
    assert forall|k: int| 0 <= k < l.len() && l[k].0 != p implies f.contains(#[trigger] l[k]) by {
        l.lemma_filter_contains(ajena(p), k);
    }
    if l.len() > 0 {
        let d = l.drop_last();
        quitada_sin_la_ruta(d, p);
        assert(l =~= d.push(l.last()));
        d.lemma_filter_push(l.last(), ajena(p));
        if sin_repetidos(l) {
            assert(sin_repetidos(d)) by {
                assert forall|i: int, j: int| 0 <= i < j < d.len() implies #[trigger] d[i].0 != #[trigger] d[j].0 by {
                    assert(l[i] == d[i] && l[j] == d[j]);
                }
            }
            let fd = quitada(d, p);
            if l.last().0 != p {
                assert forall|i: int, j: int| 0 <= i < j < f.len() implies #[trigger] f[i].0 != #[trigger] f[j].0 by {
                    if j == f.len() - 1 {
                        assert(f[i] == fd[i]);
                        assert(d.contains(fd[i]));
                        let m = choose|m: int| 0 <= m < d.len() && d[m] == fd[i];
                        assert(l[m] == d[m]);
                        assert(l[m].0 != l[l.len() - 1].0);
                    } else {
                        assert(f[i] == fd[i] && f[j] == fd[j]);
                    }
                }
            }
        }
    }
}

/// Tocar una ruta la deja la primera, con su fecha, y una sola vez; la
/// lista nunca pasa del tope, lo demás que queda viene de la lista de
/// antes sin esa ruta, y si antes no había rutas repetidas, tampoco
/// después.
pub proof fn ley_tocar(l: Seq<Apunte>, p: Seq<char>, cuando: Seq<char>)
    ensures
        1 <= tocada(l, p, cuando).len() <= MAXIMO,
        tocada(l, p, cuando)[0] == (p, cuando),
        forall|k: int| 1 <= k < tocada(l, p, cuando).len() ==> (#[trigger] tocada(l, p, cuando)[k]).0 != p,
        forall|k: int| 1 <= k < tocada(l, p, cuando).len() ==> l.contains(#[trigger] tocada(l, p, cuando)[k]),
        sin_repetidos(l) ==> sin_repetidos(tocada(l, p, cuando)),
{
    quitada_sin_la_ruta(l, p);
    let q = quitada(l, p);
    let t = seq![(p, cuando)] + q;
    let r = tocada(l, p, cuando);
    assert forall|k: int| 1 <= k < r.len() implies (#[trigger] r[k]) == q[k - 1] by {}
    assert forall|k: int| 1 <= k < r.len() implies (#[trigger] r[k]).0 != p by {
        assert(r[k] == q[k - 1]);
    }
    assert forall|k: int| 1 <= k < r.len() implies l.contains(#[trigger] r[k]) by {
        assert(r[k] == q[k - 1]);
    }
    if sin_repetidos(l) {
        assert forall|i: int, j: int| 0 <= i < j < r.len() implies #[trigger] r[i].0 != #[trigger] r[j].0 by {
            assert(r[j] == q[j - 1]);
            if i > 0 {
                assert(r[i] == q[i - 1]);
            }
        }
    }
}

/// Quitar una ruta no deja ninguna entrada suya, conserva todas las demás
/// y no añade nada.
pub proof fn ley_quitar(l: Seq<Apunte>, p: Seq<char>)
    ensures
        forall|k: int| 0 <= k < quitada(l, p).len() ==> (#[trigger] quitada(l, p)[k]).0 != p,
        forall|k: int| 0 <= k < quitada(l, p).len() ==> l.contains(#[trigger] quitada(l, p)[k]),
        forall|k: int| 0 <= k < l.len() && l[k].0 != p ==> quitada(l, p).contains(#[trigger] l[k]),
        sin_repetidos(l) ==> sin_repetidos(quitada(l, p)),
{
    quitada_sin_la_ruta(l, p);
}

} // verus!

//! Recuperación tras un cierre inesperado: una lista de apuntes, uno por
//! documento vivo, con su copia de trabajo, el original del que salió y si
//! tenía cambios sin guardar. Cada apunte se indexa por la copia de
//! trabajo: apuntar o borrar uno deja los demás como estaban.

use vstd::prelude::*;
use crate::cadenas::mismo_texto;
use crate::reloj::{ahora, reloj_sin_hora};
use crate::rutas::{nombre_de_fichero, nombre_en_ruta};

verus! {

/// El apunte de un documento vivo.
#[derive(Clone, Debug)]
pub struct Sesion {
    /// El documento del que salió la copia (vacío si nunca se guardó).
    pub original_path: String,
    /// La copia de trabajo, con todos los cambios dentro.
    pub work_path: String,
    /// ¿Había cambios sin guardar cuando se apuntó?
    pub modificado: bool,
    /// Cuándo se apuntó, en ISO 8601.
    pub cuando: String,
    /// Nombre para enseñar; se calcula al leer, no se guarda.
    pub name: String,
}

/// Un apunte visto como valores.
pub struct VistaSesion {
    pub original: Seq<char>,
    pub trabajo: Seq<char>,
    pub modificado: bool,
    pub cuando: Seq<char>,
    pub nombre: Seq<char>,
}

impl View for Sesion {
    type V = VistaSesion;

    open spec fn view(&self) -> VistaSesion {
        VistaSesion {
            original: self.original_path@,
            trabajo: self.work_path@,
            modificado: self.modificado,
            cuando: self.cuando@,
            nombre: self.name@,
        }
    }
}

/// La lista vista como valores.
pub open spec fn vistas(l: Seq<Sesion>) -> Seq<VistaSesion> {
    l.map_values(|s: Sesion| s@)
}

/// El apunte sin nombre, que es como se guarda.
pub open spec fn sin_nombre(s: VistaSesion) -> VistaSesion {
    VistaSesion { nombre: Seq::empty(), ..s }
}

/// El nombre que se enseña: el del fichero original, si no el de la copia,
/// y si ninguno lo tiene, «documento».
pub open spec fn nombre_de_sesion(original: Seq<char>, trabajo: Seq<char>) -> Seq<char> {
    match nombre_en_ruta(original) {
        Some(n) => n,
        None => match nombre_en_ruta(trabajo) {
            Some(n) => n,
            None => "documento"@,
        },
    }
}

/// El apunte con el nombre que se enseña.
pub open spec fn nombrada(s: VistaSesion) -> VistaSesion {
    VistaSesion { nombre: nombre_de_sesion(s.original, s.trabajo), ..s }
}

/// El apunte de la copia `trabajo`, que salió de `original`, hecho en
/// `cuando`.
pub open spec fn nuevo_apunte(trabajo: Seq<char>, original: Seq<char>, modificado: bool, cuando: Seq<char>) -> VistaSesion {
    VistaSesion { original, trabajo, modificado, cuando, nombre: Seq::empty() }
}

/// La posición del primer apunte de la copia `w`, o la longitud de la lista
/// si no hay ninguno.
pub open spec fn posicion(l: Seq<VistaSesion>, w: Seq<char>) -> int
    decreases l.len(),
{
    if l.len() == 0 {
        0
    } else if l[0].trabajo == w {
        0
    } else {
        1 + posicion(l.drop_first(), w)
    }
}

/// La lista tras apuntar `nueva`: su apunte anterior (el primero de su
/// copia) se cambia por ella, o se añade al final si no lo había; a todos
/// se les quita el nombre.
pub open spec fn apuntada(l: Seq<VistaSesion>, nueva: VistaSesion) -> Seq<VistaSesion> {
    let limpia = l.map_values(|s: VistaSesion| sin_nombre(s));
    let p = posicion(l, nueva.trabajo);
    if p < l.len() { limpia.update(p, nueva) } else { limpia.push(nueva) }
}

/// ¿Se puede recuperar este apunte? Tiene cambios sin guardar y su copia
/// sigue en su sitio.
pub open spec fn recuperable(s: VistaSesion, existe: bool) -> bool {
    s.modificado && existe
}

/// Lo que hay que ofrecer: los apuntes con cambios cuya copia sigue en su
/// sitio (`existen`, apunte por apunte), en su orden.
pub open spec fn recuperables(l: Seq<VistaSesion>, existen: Seq<bool>) -> Seq<VistaSesion>
    decreases l.len(),
{
    if l.len() == 0 || existen.len() == 0 {
        Seq::empty()
    } else {
        let r = recuperables(l.drop_last(), existen.drop_last());
        if recuperable(l.last(), existen.last()) { r.push(l.last()) } else { r }
    }
}

/// ¿No es de la copia `w` este apunte?
pub open spec fn de_otra_copia(w: Seq<char>) -> spec_fn(VistaSesion) -> bool {
    |s: VistaSesion| s.trabajo != w
}

/// Lo que queda tras borrar el apunte de la copia `w`; sin copia (o con
/// una vacía), no queda nada.
pub open spec fn borrada(l: Seq<VistaSesion>, w: Option<Seq<char>>) -> Seq<VistaSesion> {
    match w {
        Some(w) => if w.len() > 0 { l.filter(de_otra_copia(w)) } else { Seq::empty() },
        None => Seq::empty(),
    }
}

/// La posición es la del primer apunte de la copia.
proof fn posicion_es(l: Seq<VistaSesion>, w: Seq<char>, i: int)
    requires
        0 <= i <= l.len(),
        forall|k: int| 0 <= k < i ==> (#[trigger] l[k]).trabajo != w,
        i < l.len() ==> l[i].trabajo == w,
    ensures
        posicion(l, w) == i,
    decreases l.len(),
{
    if l.len() > 0 && i > 0 {
        assert(l[0].trabajo != w);
        assert forall|k: int| 0 <= k < i - 1 implies (#[trigger] l.drop_first()[k]).trabajo != w by {
            assert(l.drop_first()[k] == l[k + 1]);
        }
        posicion_es(l.drop_first(), w, i - 1);
    }
}

/// El apunte sin nombre.
fn limpia(s: &Sesion) -> (r: Sesion)
    ensures
        r@ == sin_nombre(s@),
{
    Sesion {
        original_path: s.original_path.clone(),
        work_path: s.work_path.clone(),
        modificado: s.modificado,
        cuando: s.cuando.clone(),
        name: String::new(),
    }
}

/// Cada apunte con el nombre que se enseña.
pub fn nombra(sesiones: Vec<Sesion>) -> (r: Vec<Sesion>)
    ensures
        r.len() == sesiones.len(),
        forall|i: int| 0 <= i < r.len() ==> (#[trigger] r@[i])@ == nombrada(sesiones@[i]@),
{
    let mut r: Vec<Sesion> = Vec::new();
    let mut i: usize = 0;
    while i < sesiones.len()
        invariant
            i <= sesiones.len(),
            r.len() == i,
            forall|k: int| 0 <= k < i ==> (#[trigger] r@[k])@ == nombrada(sesiones@[k]@),
        decreases sesiones.len() - i,
    {
        let s = &sesiones[i];
        let name = match nombre_de_fichero(s.original_path.as_str()) {
            Some(n) => n,
            None => match nombre_de_fichero(s.work_path.as_str()) {
                Some(n) => n,
                None => String::from_str("documento"),
            },
        };
        r.push(Sesion {
            original_path: s.original_path.clone(),
            work_path: s.work_path.clone(),
            modificado: s.modificado,
            cuando: s.cuando.clone(),
            name,
        });
        i = i + 1;
    }
    r
}

/// Apunta un documento con la fecha `cuando`: cambia su apunte, o lo añade
/// si no lo tenía, y deja los demás como estaban (sin nombre, que no se
/// guarda).
pub fn apunta_con(
    sesiones: Vec<Sesion>,
    work_path: &str,
    original_path: &str,
    modificado: bool,
    cuando: String,
) -> (r: Vec<Sesion>)
    ensures
        vistas(r@) == apuntada(vistas(sesiones@), nuevo_apunte(work_path@, original_path@, modificado, cuando@)),
{
    let ghost l = vistas(sesiones@);
    let ghost nueva = nuevo_apunte(work_path@, original_path@, modificado, cuando@);
    let n = sesiones.len();
    let mut p: usize = 0;
    while p < n && !mismo_texto(sesiones[p].work_path.as_str(), work_path)
        invariant
            n == sesiones.len(),
            l == vistas(sesiones@),
            p <= n,
            forall|k: int| 0 <= k < p ==> (#[trigger] l[k]).trabajo != work_path@,
        decreases n - p,
    {
        p = p + 1;
    }
    proof {
        posicion_es(l, work_path@, p as int);
    }
    let mut r: Vec<Sesion> = Vec::new();
    let mut i: usize = 0;
    while i < p
        invariant
            n == sesiones.len(),
            l == vistas(sesiones@),
            p <= n,
            i <= p,
            r.len() == i,
            forall|k: int| 0 <= k < i ==> (#[trigger] r@[k])@ == sin_nombre(l[k]),
        decreases p - i,
    {
        r.push(limpia(&sesiones[i]));
        i = i + 1;
    }
    r.push(Sesion {
        original_path: String::from_str(original_path),
        work_path: String::from_str(work_path),
        modificado,
        cuando,
        name: String::new(),
    });
    if p < n {
        i = p + 1;
        while i < n
            invariant
                n == sesiones.len(),
                l == vistas(sesiones@),
                p < i <= n,
                r.len() == i,
                forall|k: int| 0 <= k < i ==> (#[trigger] r@[k])@ == (if k == p { nueva } else { sin_nombre(l[k]) }),
            decreases n - i,
        {
            r.push(limpia(&sesiones[i]));
            i = i + 1;
        }
    }
    assert(vistas(r@) =~= apuntada(l, nueva));
    r
}

/// Apunta un documento con la hora de ahora. El contrato es el de
/// `apunta_con`, con la fecha que dé el reloj; si el reloj no da hora, no
/// se apunta nada y se dice por qué.
pub fn apunta_en(sesiones: Vec<Sesion>, work_path: &str, original_path: &str, modificado: bool)
    -> (r: Result<Vec<Sesion>, String>)
    ensures
        match r {
            Ok(l) => exists|cuando: Seq<char>| cuando.len() > 0 && vistas(l@) == apuntada(
                vistas(sesiones@), nuevo_apunte(work_path@, original_path@, modificado, cuando)),
            Err(m) => m@ == reloj_sin_hora(),
        },
{
    match ahora() {
        Some(cuando) => {
            let ghost c = cuando@;
            let r = apunta_con(sesiones, work_path, original_path, modificado, cuando);
            assert(c.len() > 0 && vistas(r@) == apuntada(vistas(sesiones@), nuevo_apunte(work_path@, original_path@, modificado, c)));
            Ok(r)
        },
        None => Err(String::from_str("El reloj del sistema no da una hora válida")),
    }
}

/// Los apuntes que hay que ofrecer al arrancar: los que tienen cambios sin
/// guardar y cuya copia sigue en su sitio (`existen` lo dice apunte por
/// apunte). El segundo valor dice si hay apuntes que ya no sirven y hay
/// que retirar (entonces se guardan solo los ofrecidos).
pub fn recupera_en(sesiones: Vec<Sesion>, existen: &Vec<bool>) -> (r: (Vec<Sesion>, bool))
    requires
        existen.len() == sesiones.len(),
    ensures
        vistas(r.0@) == recuperables(vistas(sesiones@), existen@),
        r.1 == !(forall|k: int| 0 <= k < sesiones.len() ==> #[trigger] recuperable(sesiones@[k]@, existen@[k])),
{
    let ghost l = vistas(sesiones@);
    let mut vivas: Vec<Sesion> = Vec::new();
    let mut retira = false;
    let mut i: usize = 0;
    while i < sesiones.len()
        invariant
            existen.len() == sesiones.len(),
            l == vistas(sesiones@),
            i <= sesiones.len(),
            vistas(vivas@) == recuperables(l.take(i as int), existen@.take(i as int)),
            retira == !(forall|k: int| 0 <= k < i ==> #[trigger] recuperable(sesiones@[k]@, existen@[k])),
        decreases sesiones.len() - i,
    {
        let s = &sesiones[i];
        proof {
            assert(l.take(i + 1).drop_last() =~= l.take(i as int));
            assert(existen@.take(i + 1).drop_last() =~= existen@.take(i as int));
        }
        if s.modificado && existen[i] {
            assert(recuperable(sesiones@[i as int]@, existen@[i as int]));
            let ghost antes = vivas@;
            vivas.push(Sesion {
                original_path: s.original_path.clone(),
                work_path: s.work_path.clone(),
                modificado: s.modificado,
                cuando: s.cuando.clone(),
                name: s.name.clone(),
            });
            assert(vistas(vivas@) =~= vistas(antes).push(s@));
        } else {
            retira = true;
            assert(!recuperable(sesiones@[i as int]@, existen@[i as int]));
        }
        i = i + 1;
    }
    assert(l.take(sesiones.len() as int) =~= l);
    assert(existen@.take(sesiones.len() as int) =~= existen@);
    (vivas, retira)
}

/// Borra el apunte de la copia `work_path`; los demás se quedan. Sin copia
/// (o con una vacía), los borra todos: es cerrar la app entera.
pub fn borra_en(sesiones: Vec<Sesion>, work_path: Option<&str>) -> (r: Vec<Sesion>)
    ensures
        vistas(r@) == borrada(vistas(sesiones@), match work_path { Some(w) => Some(w@), None => None }),
{
    let ghost l = vistas(sesiones@);
    let w = match work_path {
        Some(w) => w,
        None => return Vec::new(),
    };
    if w.is_empty() {
        return Vec::new();
    }
    let mut r: Vec<Sesion> = Vec::new();
    let mut i: usize = 0;
    while i < sesiones.len()
        invariant
            l == vistas(sesiones@),
            i <= sesiones.len(),
            vistas(r@) == l.take(i as int).filter(de_otra_copia(w@)),
        decreases sesiones.len() - i,
    {
        let s = &sesiones[i];
        proof {
            assert(l.take(i + 1) =~= l.take(i as int).push(s@));
            l.take(i as int).lemma_filter_push(s@, de_otra_copia(w@));
        }
        if !mismo_texto(s.work_path.as_str(), w) {
            let ghost antes = r@;
            r.push(Sesion {
                original_path: s.original_path.clone(),
                work_path: s.work_path.clone(),
                modificado: s.modificado,
                cuando: s.cuando.clone(),
                name: s.name.clone(),
            });
            assert(vistas(r@) =~= vistas(antes).push(s@));
        }
        i = i + 1;
    }
    assert(l.take(sesiones.len() as int) =~= l);
    r
}

/// Las copias de trabajo apuntadas, todas y en su orden: el barrido de
/// temporales no puede llevarse ninguna.
pub fn copias_apuntadas(sesiones: &Vec<Sesion>) -> (r: Vec<String>)
    ensures
        r.len() == sesiones.len(),
        forall|i: int| 0 <= i < r.len() ==> (#[trigger] r@[i])@ == sesiones@[i].work_path@,
{
    let mut r: Vec<String> = Vec::new();
    let mut i: usize = 0;
    while i < sesiones.len()
        invariant
            i <= sesiones.len(),
            r.len() == i,
            forall|k: int| 0 <= k < i ==> (#[trigger] r@[k])@ == sesiones@[k].work_path@,
        decreases sesiones.len() - i,
    {
        r.push(sesiones[i].work_path.clone());
        i = i + 1;
    }
    r
}

/// La posición está dentro de la lista o justo al final; antes de ella no
/// hay apuntes de la copia, y en ella, si está dentro, sí.
proof fn posicion_acotada(l: Seq<VistaSesion>, w: Seq<char>)
    ensures
        0 <= posicion(l, w) <= l.len(),
        forall|k: int| 0 <= k < posicion(l, w) ==> (#[trigger] l[k]).trabajo != w,
        posicion(l, w) < l.len() ==> l[posicion(l, w)].trabajo == w,
    decreases l.len(),
{
    if l.len() > 0 && l[0].trabajo != w {
        posicion_acotada(l.drop_first(), w);
        assert forall|k: int| 0 <= k < posicion(l, w) implies (#[trigger] l[k]).trabajo != w by {
            if k > 0 {
                assert(l[k] == l.drop_first()[k - 1]);
            }
        }
    }
}

/// ¿Sale cada copia de trabajo una vez como mucho?
pub open spec fn copias_distintas(l: Seq<VistaSesion>) -> bool {
    forall|i: int, j: int| 0 <= i < j < l.len() ==> #[trigger] l[i].trabajo != #[trigger] l[j].trabajo
}

/// Apuntar un documento deja su apunte, y solo el suyo, con lo nuevo: los
/// demás quedan como estaban y en su orden (sin el nombre, que no se
/// guarda), la lista crece a lo sumo en uno y, si no había copias
/// repetidas, sigue sin haberlas.
pub proof fn ley_apuntar(l: Seq<VistaSesion>, nueva: VistaSesion)
    ensures
        apuntada(l, nueva).len() == l.len() || apuntada(l, nueva).len() == l.len() + 1,
        apuntada(l, nueva).len() == l.len() <==> exists|k: int| 0 <= k < l.len() && l[k].trabajo == nueva.trabajo,
        apuntada(l, nueva).contains(nueva),
        forall|k: int| 0 <= k < l.len() && l[k].trabajo != nueva.trabajo
            ==> #[trigger] apuntada(l, nueva)[k] == sin_nombre(l[k]),
        copias_distintas(l) && nueva.nombre == Seq::<char>::empty() ==> copias_distintas(apuntada(l, nueva)),
        copias_distintas(l) ==> forall|k: int| 0 <= k < apuntada(l, nueva).len()
            && (#[trigger] apuntada(l, nueva)[k]).trabajo == nueva.trabajo ==> apuntada(l, nueva)[k] == nueva,
{
    posicion_acotada(l, nueva.trabajo);
    let p = posicion(l, nueva.trabajo);
    let a = apuntada(l, nueva);
    assert(a[p] == nueva);
    if copias_distintas(l) {
        assert forall|i: int, j: int| 0 <= i < j < a.len() implies #[trigger] a[i].trabajo != #[trigger] a[j].trabajo by {
            if j == p {
                assert(a[i] == sin_nombre(l[i]));
            } else if i == p {
                assert(a[j] == sin_nombre(l[j]));
                if p < l.len() {
                    assert(l[p].trabajo != l[j].trabajo);
                }
            } else {
                assert(a[i] == sin_nombre(l[i]) && a[j] == sin_nombre(l[j]));
            }
        }
        assert forall|k: int| 0 <= k < a.len() && (#[trigger] a[k]).trabajo == nueva.trabajo implies a[k] == nueva by {
            if k != p {
                assert(a[k] == sin_nombre(l[k]));
                if p < l.len() {
                    assert(l[p].trabajo != l[k].trabajo || k == p);
                }
            }
        }
    }
}

/// Borrar el apunte de una copia no deja ninguno suyo y conserva, en su
/// orden, todos los de las demás copias.
pub proof fn ley_borrar(l: Seq<VistaSesion>, w: Seq<char>)
    requires
        w.len() > 0,
    ensures
        forall|k: int| 0 <= k < borrada(l, Some(w)).len() ==> (#[trigger] borrada(l, Some(w))[k]).trabajo != w,
        forall|k: int| 0 <= k < l.len() && l[k].trabajo != w ==> borrada(l, Some(w)).contains(#[trigger] l[k]),
        forall|k: int| 0 <= k < borrada(l, Some(w)).len() ==> l.contains(#[trigger] borrada(l, Some(w))[k]),
{
    broadcast use vstd::seq_lib::group_filter_ensures;
    let f = borrada(l, Some(w));
    assert forall|k: int| 0 <= k < f.len() implies (#[trigger] f[k]).trabajo != w by {
        l.lemma_filter_pred(de_otra_copia(w), k);
    }
    assert forall|k: int| 0 <= k < l.len() && l[k].trabajo != w implies f.contains(#[trigger] l[k]) by {
        l.lemma_filter_contains(de_otra_copia(w), k);
    }
    assert forall|k: int| 0 <= k < f.len() implies l.contains(#[trigger] f[k]) by {
        assert(f.contains(f[k]));
        l.lemma_filter_contains_rev(de_otra_copia(w), f[k]);
    }
}

} // verus!

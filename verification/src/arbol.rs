//! Los recorridos por el árbol de objetos de un PDF: qué cuelga de qué.
//! Un PDF real no tiene por qué ser un árbol (un `/Kids` puede volver sobre
//! sus pasos), así que cada recorrido corta los ciclos. Aquí el documento
//! se ve como una lista de objetos, cada uno con las referencias que
//! cuelgan de él.

use vstd::prelude::*;
use crate::campos::Referencia;

verus! {

/// Un objeto del documento y las referencias que cuelgan de él.
pub type Enlaces = (Referencia, Seq<Referencia>);

/// Lo que cuelga de `x`: las referencias del primer objeto con ese número;
/// nada si no está.
pub open spec fn hijos_en(g: Seq<Enlaces>, x: Referencia) -> Seq<Referencia>
    decreases g.len(),
{
    if g.len() == 0 {
        Seq::empty()
    } else if g[0].0 == x {
        g[0].1
    } else {
        hijos_en(g.drop_first(), x)
    }
}

/// ¿Es `p` un camino desde una raíz, bajando cada vez a algo que cuelga
/// del anterior?
pub open spec fn camino(g: Seq<Enlaces>, raices: Seq<Referencia>, p: Seq<Referencia>) -> bool {
    &&& p.len() > 0
    &&& raices.contains(p[0])
    &&& forall|i: int| 0 <= i < p.len() - 1 ==> #[trigger] hijos_en(g, p[i]).contains(p[i + 1])
}

/// ¿Se llega a `x` desde las raíces bajando por lo que cuelga de cada
/// objeto?
pub open spec fn alcanzable(g: Seq<Enlaces>, raices: Seq<Referencia>, x: Referencia) -> bool {
    exists|p: Seq<Referencia>| #[trigger] camino(g, raices, p) && p.last() == x
}

/// Lo que cuelga de algo alcanzable también se alcanza.
proof fn un_paso_mas(g: Seq<Enlaces>, raices: Seq<Referencia>, y: Referencia, c: Referencia)
    requires
        alcanzable(g, raices, y),
        hijos_en(g, y).contains(c),
    ensures
        alcanzable(g, raices, c),
{
    let p = choose|p: Seq<Referencia>| #[trigger] camino(g, raices, p) && p.last() == y;
    let q = p.push(c);
    assert forall|i: int| 0 <= i < q.len() - 1 implies #[trigger] hijos_en(g, q[i]).contains(q[i + 1]) by {
        if i < p.len() - 1 {
            assert(q[i] == p[i] && q[i + 1] == p[i + 1]);
        } else {
            assert(q[i] == y && q[i + 1] == c);
        }
    }
    assert(camino(g, raices, q) && q.last() == c);
}

/// Una raíz se alcanza.
proof fn raiz_alcanzable(g: Seq<Enlaces>, raices: Seq<Referencia>, y: Referencia)
    requires
        raices.contains(y),
    ensures
        alcanzable(g, raices, y),
{
    let p = seq![y];
    assert(camino(g, raices, p) && p.last() == y);
}

/// Todas las referencias que cuelgan de algún objeto.
pub open spec fn todos_los_hijos(g: Seq<Enlaces>) -> Seq<Referencia>
    decreases g.len(),
{
    if g.len() == 0 { Seq::empty() } else { g[0].1 + todos_los_hijos(g.drop_first()) }
}

proof fn hijos_en_todos(g: Seq<Enlaces>, x: Referencia, c: Referencia)
    requires
        hijos_en(g, x).contains(c),
    ensures
        todos_los_hijos(g).contains(c),
    decreases g.len(),
{
    if g.len() > 0 {
        let t = todos_los_hijos(g);
        if g[0].0 == x {
            let i = choose|i: int| 0 <= i < g[0].1.len() && g[0].1[i] == c;
            assert(t[i] == c);
        } else {
            hijos_en_todos(g.drop_first(), x, c);
            let r = todos_los_hijos(g.drop_first());
            let i = choose|i: int| 0 <= i < r.len() && r[i] == c;
            assert(t[g[0].1.len() + i] == c);
        }
    }
}

/// Las referencias del objeto `x` en la lista, si está.
fn hijos_de(g: &Vec<(Referencia, Vec<Referencia>)>, x: Referencia) -> (r: Vec<Referencia>)
    ensures
        r@ == hijos_en(vista_grafo(g@), x),
{
    let ghost v = vista_grafo(g@);
    let mut i: usize = 0;
    assert(v.skip(0) =~= v);
    while i < g.len()
        invariant
            v == vista_grafo(g@),
            i <= g.len(),
            hijos_en(v, x) == hijos_en(v.skip(i as int), x),
        decreases g.len() - i,
    {
        assert(v.skip(i as int)[0] == v[i as int]);
        if g[i].0.0 == x.0 && g[i].0.1 == x.1 {
            let mut r: Vec<Referencia> = Vec::new();
            let mut k: usize = 0;
            while k < g[i].1.len()
                invariant
                    i < g.len(),
                    k <= g@[i as int].1.len(),
                    r@ == g@[i as int].1@.take(k as int),
                decreases g@[i as int].1.len() - k,
            {
                r.push(g[i].1[k]);
                assert(r@ =~= g@[i as int].1@.take(k + 1));
                k = k + 1;
            }
            assert(r@ =~= g@[i as int].1@);
            return r;
        }
        assert(v.skip(i as int).drop_first() =~= v.skip(i + 1));
        i = i + 1;
    }
    Vec::new()
}

/// El grafo visto como valores.
pub open spec fn vista_grafo(g: Seq<(Referencia, Vec<Referencia>)>) -> Seq<Enlaces> {
    g.map_values(|e: (Referencia, Vec<Referencia>)| (e.0, e.1@))
}

fn esta(v: &Vec<Referencia>, x: Referencia) -> (r: bool)
    ensures
        r == v@.contains(x),
{
    let mut i: usize = 0;
    while i < v.len()
        invariant
            i <= v.len(),
            forall|k: int| 0 <= k < i ==> v@[k] != x,
        decreases v.len() - i,
    {
        if v[i].0 == x.0 && v[i].1 == x.1 {
            return true;
        }
        i = i + 1;
    }
    false
}

/// Todo lo que se alcanza desde las raíces, cada referencia una vez,
/// aunque el grafo tenga ciclos. Lo ya visto se lleva en un `Vec` sin
/// repetidos: vstd da modelo al `HashSet` de std solo para claves enteras,
/// y una referencia es un par.
pub fn alcanzables(g: &Vec<(Referencia, Vec<Referencia>)>, raices: &Vec<Referencia>) -> (r: Vec<Referencia>)
    ensures
        r@.no_duplicates(),
        forall|x: Referencia| r@.contains(x) <==> alcanzable(vista_grafo(g@), raices@, x),
{
    let ghost gv = vista_grafo(g@);
    let ghost universo = (raices@ + todos_los_hijos(gv)).to_set();
    let mut vistos: Vec<Referencia> = Vec::new();
    let mut pila: Vec<Referencia> = Vec::new();
    let mut i: usize = 0;
    while i < raices.len()
        invariant
            i <= raices.len(),
            pila@ == raices@.take(i as int),
        decreases raices.len() - i,
    {
        pila.push(raices[i]);
        assert(pila@ =~= raices@.take(i + 1));
        i = i + 1;
    }
    assert(pila@ =~= raices@);
    proof {
        assert forall|y: Referencia| pila@.contains(y) implies alcanzable(gv, raices@, y) by {
            raiz_alcanzable(gv, raices@, y);
        }
        assert forall|y: Referencia| pila@.contains(y) implies universo.contains(y) by {
            let k = choose|k: int| 0 <= k < pila@.len() && pila@[k] == y;
            assert((raices@ + todos_los_hijos(gv))[k] == y);
        }
        vstd::seq_lib::seq_to_set_is_finite(raices@ + todos_los_hijos(gv));
    }
    while pila.len() > 0
        invariant
            gv == vista_grafo(g@),
            universo == (raices@ + todos_los_hijos(gv)).to_set(),
            universo.finite(),
            vistos@.no_duplicates(),
            vistos@.len() <= universo.len(),
            forall|y: Referencia| vistos@.contains(y) ==> universo.contains(y),
            forall|y: Referencia| pila@.contains(y) ==> universo.contains(y),
            forall|y: Referencia| vistos@.contains(y) ==> alcanzable(gv, raices@, y),
            forall|y: Referencia| pila@.contains(y) ==> alcanzable(gv, raices@, y),
            forall|y: Referencia| raices@.contains(y) ==> vistos@.contains(y) || pila@.contains(y),
            forall|y: Referencia, c: Referencia| vistos@.contains(y) && #[trigger] hijos_en(gv, y).contains(c)
                ==> vistos@.contains(c) || pila@.contains(c),
        decreases universo.len() - vistos@.len(), pila@.len(),
    {
        let ghost pila_antes = pila@;
        let ghost vistos_antes = vistos@;
        let x = pila.pop().unwrap();
        assert(pila_antes == pila@.push(x));
        assert(pila_antes.contains(x)) by {
            assert(pila_antes[pila_antes.len() - 1] == x);
        }
        assert forall|y: Referencia| pila_antes.contains(y) implies pila@.contains(y) || y == x by {
            let k = choose|k: int| 0 <= k < pila_antes.len() && pila_antes[k] == y;
            if k < pila@.len() {
                assert(pila@[k] == y);
            }
        }
        assert forall|y: Referencia| pila@.contains(y) implies pila_antes.contains(y) by {
            let k = choose|k: int| 0 <= k < pila@.len() && pila@[k] == y;
            assert(pila_antes[k] == y);
        }
        assert(alcanzable(gv, raices@, x));
        assert forall|y: Referencia| pila@.contains(y) implies alcanzable(gv, raices@, y) by {
            assert(pila_antes.contains(y));
        }
        if esta(&vistos, x) {
            // ya estaba: solo se saca de la pila
            assert forall|y: Referencia, c: Referencia| vistos@.contains(y) && #[trigger] hijos_en(gv, y).contains(c)
                implies vistos@.contains(c) || pila@.contains(c) by {
                if pila_antes.contains(c) && c != x {
                    assert(pila@.contains(c));
                }
            }
        } else {
            vistos.push(x);
            proof {
                assert forall|y: Referencia| vistos@.contains(y) <==> vistos_antes.contains(y) || y == x by {
                    if vistos@.contains(y) {
                        let k = choose|k: int| 0 <= k < vistos@.len() && vistos@[k] == y;
                        if k < vistos_antes.len() {
                            assert(vistos_antes[k] == y);
                        }
                    }
                    if vistos_antes.contains(y) {
                        let k = choose|k: int| 0 <= k < vistos_antes.len() && vistos_antes[k] == y;
                        assert(vistos@[k] == y);
                    }
                    if y == x {
                        assert(vistos@[vistos@.len() - 1] == x);
                    }
                }
                assert(vistos@.no_duplicates()) by {
                    assert forall|a: int, b: int| 0 <= a < vistos@.len() && 0 <= b < vistos@.len() && a != b
                        implies vistos@[a] != vistos@[b] by {
                        if a < vistos_antes.len() && b < vistos_antes.len() {
                            assert(vistos@[a] == vistos_antes[a] && vistos@[b] == vistos_antes[b]);
                        } else if a < vistos_antes.len() {
                            assert(vistos@[a] == vistos_antes[a]);
                            assert(vistos_antes.contains(vistos_antes[a]));
                        } else {
                            assert(vistos@[b] == vistos_antes[b]);
                            assert(vistos_antes.contains(vistos_antes[b]));
                        }
                    }
                }
                vistos@.unique_seq_to_set();
                assert(vistos@.to_set().subset_of(universo));
                vstd::set_lib::lemma_len_subset(vistos@.to_set(), universo);
            }
            let hs = hijos_de(g, x);
            let ghost pila_media = pila@;
            assert(forall|y: Referencia| pila_media.contains(y) ==> pila_antes.contains(y));
            assert(forall|y: Referencia| pila_antes.contains(y) ==> pila_media.contains(y) || y == x);
            assert(forall|y: Referencia| pila_antes.contains(y) ==> alcanzable(gv, raices@, y));
            let mut k: usize = 0;
            while k < hs.len()
                invariant
                    k <= hs.len(),
                    pila@ == pila_media + hs@.take(k as int),
                decreases hs.len() - k,
            {
                pila.push(hs[k]);
                assert(pila@ =~= pila_media + hs@.take(k + 1));
                k = k + 1;
            }
            assert(pila@ =~= pila_media + hs@);
            proof {
                assert forall|y: Referencia|
                    #![trigger pila@.contains(y)]
                    #![trigger pila_media.contains(y)]
                    #![trigger hs@.contains(y)]
                    pila@.contains(y) <==> pila_media.contains(y) || hs@.contains(y) by {
                    if pila@.contains(y) {
                        let j = choose|j: int| 0 <= j < pila@.len() && pila@[j] == y;
                        if j < pila_media.len() {
                            assert(pila_media[j] == y);
                        } else {
                            assert(hs@[j - pila_media.len()] == y);
                        }
                    }
                    if pila_media.contains(y) {
                        let j = choose|j: int| 0 <= j < pila_media.len() && pila_media[j] == y;
                        assert(pila@[j] == y);
                    }
                    if hs@.contains(y) {
                        let j = choose|j: int| 0 <= j < hs@.len() && hs@[j] == y;
                        assert(pila@[pila_media.len() + j] == y);
                    }
                }
                assert forall|y: Referencia| vistos@.contains(y) implies alcanzable(gv, raices@, y) by {
                    if y != x {
                        assert(vistos_antes.contains(y));
                    }
                }
                assert forall|c: Referencia| #[trigger] hs@.contains(c) implies alcanzable(gv, raices@, c) && universo.contains(c) by {
                    un_paso_mas(gv, raices@, x, c);
                    hijos_en_todos(gv, x, c);
                    let t = todos_los_hijos(gv);
                    let j = choose|j: int| 0 <= j < t.len() && t[j] == c;
                    assert((raices@ + t)[raices@.len() + j] == c);
                }
                assert forall|y: Referencia| pila@.contains(y) implies alcanzable(gv, raices@, y) by {
                    if pila_media.contains(y) {
                        assert(pila_antes.contains(y));
                    } else {
                        assert(hs@.contains(y));
                    }
                }
                assert forall|y: Referencia, c: Referencia| vistos@.contains(y) && #[trigger] hijos_en(gv, y).contains(c)
                    implies vistos@.contains(c) || pila@.contains(c) by {
                    if y == x {
                        assert(hs@.contains(c));
                        assert(pila@.contains(c));
                    } else {
                        assert(vistos_antes.contains(y));
                        assert(vistos_antes.contains(c) || pila_antes.contains(c));
                        if vistos_antes.contains(c) {
                            assert(vistos@.contains(c));
                        } else if c == x {
                            assert(vistos@.contains(x));
                        } else {
                            assert(pila_media.contains(c));
                            assert(pila@.contains(c));
                        }
                    }
                }
            }
        }
    }
    proof {
        assert forall|x: Referencia| alcanzable(gv, raices@, x) implies vistos@.contains(x) by {
            let p = choose|p: Seq<Referencia>| #[trigger] camino(gv, raices@, p) && p.last() == x;
            todo_lo_alcanzable_visto(gv, raices@, vistos@, p, (p.len() - 1) as nat);
        }
    }
    vistos
}

/// Si lo visto contiene las raíces y todo lo que cuelga de lo visto,
/// contiene cada paso de cualquier camino.
proof fn todo_lo_alcanzable_visto(g: Seq<Enlaces>, raices: Seq<Referencia>, vistos: Seq<Referencia>, p: Seq<Referencia>, i: nat)
    requires
        forall|y: Referencia| raices.contains(y) ==> vistos.contains(y),
        forall|y: Referencia, c: Referencia| vistos.contains(y) && #[trigger] hijos_en(g, y).contains(c) ==> vistos.contains(c),
        camino(g, raices, p),
        i < p.len(),
    ensures
        vistos.contains(p[i as int]),
    decreases i,
{
    if i > 0 {
        todo_lo_alcanzable_visto(g, raices, vistos, p, (i - 1) as nat);
        assert(hijos_en(g, p[i - 1]).contains(p[(i - 1) + 1]));
    }
}

/// ¿Es `x` uno de los objetos de la lista?
pub open spec fn es_objeto(g: Seq<Enlaces>, x: Referencia) -> bool {
    exists|i: int| 0 <= i < g.len() && g[i].0 == x
}

fn es_objeto_exec(g: &Vec<(Referencia, Vec<Referencia>)>, x: Referencia) -> (r: bool)
    ensures
        r == es_objeto(vista_grafo(g@), x),
{
    let ghost v = vista_grafo(g@);
    let mut i: usize = 0;
    while i < g.len()
        invariant
            v == vista_grafo(g@),
            i <= g.len(),
            forall|k: int| 0 <= k < i ==> v[k].0 != x,
        decreases g.len() - i,
    {
        if g[i].0.0 == x.0 && g[i].0.1 == x.1 {
            assert(v[i as int].0 == x);
            return true;
        }
        i = i + 1;
    }
    false
}

/// Los campos (y sus descendientes) que ya cuelgan del formulario: todo lo
/// que se alcanza desde los campos de `/Fields` bajando por los `/Kids`.
pub fn campos_colgados(g: &Vec<(Referencia, Vec<Referencia>)>, campos: &Vec<Referencia>) -> (r: Vec<Referencia>)
    ensures
        r@.no_duplicates(),
        forall|x: Referencia| r@.contains(x) <==> alcanzable(vista_grafo(g@), campos@, x),
{
    alcanzables(g, campos)
}

/// Los nodos intermedios del árbol de páginas, que se quedan huérfanos al
/// aplanarlo: los nodos `/Pages` (los objetos de `g`, cada uno con sus
/// `/Kids`) que se alcanzan desde la raíz, sin contar la raíz.
pub fn nodos_intermedios(g: &Vec<(Referencia, Vec<Referencia>)>, raiz: Referencia) -> (r: Vec<Referencia>)
    ensures
        r@.no_duplicates(),
        forall|x: Referencia| r@.contains(x) <==> alcanzable(vista_grafo(g@), seq![raiz], x)
            && x != raiz && es_objeto(vista_grafo(g@), x),
{
    let mut raices: Vec<Referencia> = Vec::new();
    raices.push(raiz);
    assert(raices@ =~= seq![raiz]);
    let todos = alcanzables(g, &raices);
    let mut r: Vec<Referencia> = Vec::new();
    let mut i: usize = 0;
    while i < todos.len()
        invariant
            i <= todos.len(),
            todos@.no_duplicates(),
            r@.no_duplicates(),
            forall|x: Referencia| r@.contains(x) <==> (todos@.take(i as int).contains(x) && x != raiz
                && es_objeto(vista_grafo(g@), x)),
        decreases todos.len() - i,
    {
        let x = todos[i];
        let ghost antes = r@;
        let ghost t = todos@.take(i as int);
        let ghost t1 = todos@.take(i + 1);
        assert(t1 =~= t.push(x));
        let nodo = es_objeto_exec(g, x);
        if !(x.0 == raiz.0 && x.1 == raiz.1) && nodo {
            r.push(x);
            proof {
                assert(!t.contains(x)) by {
                    if t.contains(x) {
                        let k = choose|k: int| 0 <= k < t.len() && t[k] == x;
                        assert(todos@[k] == todos@[i as int]);
                    }
                }
                assert(r@.no_duplicates()) by {
                    assert forall|a: int, b: int| 0 <= a < r@.len() && 0 <= b < r@.len() && a != b implies r@[a] != r@[b] by {
                        if a < antes.len() && b < antes.len() {
                            assert(r@[a] == antes[a] && r@[b] == antes[b]);
                        } else if a < antes.len() {
                            assert(antes.contains(antes[a]));
                        } else {
                            assert(antes.contains(antes[b]));
                        }
                    }
                }
            }
        }
        proof {
            assert forall|y: Referencia| r@.contains(y) <==> (t1.contains(y) && y != raiz && es_objeto(vista_grafo(g@), y)) by {
                if r@.contains(y) && y != x {
                    let k = choose|k: int| 0 <= k < r@.len() && r@[k] == y;
                    if k < antes.len() {
                        assert(antes[k] == y);
                    }
                }
                if antes.contains(y) {
                    let k = choose|k: int| 0 <= k < antes.len() && antes[k] == y;
                    assert(r@[k] == y);
                }
                if t1.contains(y) && y != x {
                    let k = choose|k: int| 0 <= k < t1.len() && t1[k] == y;
                    assert(t[k] == y);
                }
                if t.contains(y) {
                    let k = choose|k: int| 0 <= k < t.len() && t[k] == y;
                    assert(t1[k] == y);
                }
                if y == x {
                    assert(t1[i as int] == x);
                    if r@.len() > antes.len() {
                        assert(r@[r@.len() - 1] == x);
                    }
                }
            }
        }
        i = i + 1;
    }
    assert(todos@.take(todos.len() as int) =~= todos@);
    r
}

// ---------------------------------------------------------------------
// Subiendo por los /Parent
// ---------------------------------------------------------------------

/// Un objeto con su `/Parent` (si es una referencia) y un dato suyo.
pub type ConPadre<D> = (Referencia, Option<Referencia>, D);

/// La ficha del primer objeto con ese número, si está.
pub open spec fn ficha<D>(g: Seq<ConPadre<D>>, x: Referencia) -> Option<(Option<Referencia>, D)>
    decreases g.len(),
{
    if g.len() == 0 {
        None
    } else if g[0].0 == x {
        Some((g[0].1, g[0].2))
    } else {
        ficha(g.drop_first(), x)
    }
}

fn ficha_exec<D: Copy>(g: &Vec<ConPadre<D>>, x: Referencia) -> (r: Option<(Option<Referencia>, D)>)
    ensures
        r == ficha(g@, x),
{
    let mut i: usize = 0;
    assert(g@.skip(0) =~= g@);
    while i < g.len()
        invariant
            i <= g.len(),
            ficha(g@, x) == ficha(g@.skip(i as int), x),
        decreases g.len() - i,
    {
        assert(g@.skip(i as int)[0] == g@[i as int]);
        if g[i].0.0 == x.0 && g[i].0.1 == x.1 {
            return Some((g[i].1, g[i].2));
        }
        assert(g@.skip(i as int).drop_first() =~= g@.skip(i + 1));
        i = i + 1;
    }
    None
}

/// El ancestro más cercano de `x` (sin contar `x`) que tiene la clave
/// buscada, subiendo `n` veces como mucho.
pub open spec fn heredero_en(g: Seq<ConPadre<bool>>, x: Referencia, n: nat) -> Option<Referencia>
    decreases n,
{
    if n == 0 {
        None
    } else {
        match ficha(g, x) {
            Some((Some(p), _)) => match ficha(g, p) {
                Some((_, true)) => Some(p),
                _ => heredero_en(g, p, (n - 1) as nat),
            },
            _ => None,
        }
    }
}

/// De dónde hereda una página una clave que no tiene: el primer ancestro
/// que la tiene, subiendo por los `/Parent` (treinta y dos niveles como
/// mucho, que un ciclo no puede colgar la aplicación). `g` dice de cada
/// objeto su `/Parent` y si tiene la clave.
pub fn hereda_de_arriba(g: &Vec<ConPadre<bool>>, pagina: Referencia) -> (r: Option<Referencia>)
    ensures
        r == heredero_en(g@, pagina, 32),
{
    let mut actual = pagina;
    let mut vueltas: u8 = 0;
    while vueltas < 32
        invariant
            vueltas <= 32,
            heredero_en(g@, pagina, 32) == heredero_en(g@, actual, (32 - vueltas) as nat),
        decreases 32 - vueltas,
    {
        let padre = match ficha_exec(g, actual) {
            Some((Some(p), _)) => p,
            _ => return None,
        };
        match ficha_exec(g, padre) {
            Some((_, true)) => return Some(padre),
            _ => {},
        }
        actual = padre;
        vueltas = vueltas + 1;
    }
    None
}

/// El `/FT` de un campo, heredado del padre como dice la norma: el del
/// primer objeto que lo tiene subiendo desde el propio campo, `n` niveles
/// como mucho; nada si la cadena se corta antes.
pub open spec fn ft_en(g: Seq<ConPadre<Option<Seq<char>>>>, x: Referencia, n: nat) -> Option<Seq<char>>
    decreases n,
{
    if n == 0 {
        None
    } else {
        match ficha(g, x) {
            None => None,
            Some((padre, ft)) => match ft {
                Some(f) => Some(f),
                None => match padre {
                    Some(p) => ft_en(g, p, (n - 1) as nat),
                    None => None,
                },
            },
        }
    }
}

/// Los `/FT` como texto.
pub open spec fn vista_ft(g: Seq<ConPadre<Option<String>>>) -> Seq<ConPadre<Option<Seq<char>>>> {
    g.map_values(|e: ConPadre<Option<String>>| (e.0, e.1, match e.2 { Some(f) => Some(f@), None => None }))
}

/// Dónde está la ficha del primer objeto con ese número, si está.
fn donde_esta<D>(g: &Vec<ConPadre<D>>, x: Referencia) -> (r: Option<usize>)
    ensures
        match r {
            Some(k) => k < g@.len() && g@[k as int].0 == x && ficha(g@, x) == Some((g@[k as int].1, g@[k as int].2)),
            None => ficha(g@, x) is None,
        },
{
    let mut i: usize = 0;
    assert(g@.skip(0) =~= g@);
    while i < g.len()
        invariant
            i <= g.len(),
            ficha(g@, x) == ficha(g@.skip(i as int), x),
        decreases g.len() - i,
    {
        assert(g@.skip(i as int)[0] == g@[i as int]);
        if g[i].0.0 == x.0 && g[i].0.1 == x.1 {
            return Some(i);
        }
        assert(g@.skip(i as int).drop_first() =~= g@.skip(i + 1));
        i = i + 1;
    }
    None
}

/// La ficha vista como texto es la ficha del objeto con su `/FT` como
/// texto.
proof fn ficha_de_la_vista(g: Seq<ConPadre<Option<String>>>, x: Referencia)
    ensures
        ficha(vista_ft(g), x) == match ficha(g, x) {
            Some((p, f)) => Some((p, match f { Some(t) => Some(t@), None => None })),
            None => None,
        },
    decreases g.len(),
{
    if g.len() > 0 {
        assert(vista_ft(g).drop_first() =~= vista_ft(g.drop_first()));
        ficha_de_la_vista(g.drop_first(), x);
    }
}

/// El `/FT` de un campo, heredado (dieciséis niveles como mucho).
pub fn heredado_ft(g: &Vec<ConPadre<Option<String>>>, campo: Referencia) -> (r: Option<String>)
    ensures
        match r {
            Some(f) => ft_en(vista_ft(g@), campo, 16) == Some(f@),
            None => ft_en(vista_ft(g@), campo, 16) is None,
        },
{
    let ghost v = vista_ft(g@);
    let mut actual = campo;
    let mut vueltas: u8 = 0;
    while vueltas < 16
        invariant
            v == vista_ft(g@),
            vueltas <= 16,
            ft_en(v, campo, 16) == ft_en(v, actual, (16 - vueltas) as nat),
        decreases 16 - vueltas,
    {
        proof {
            ficha_de_la_vista(g@, actual);
        }
        let k = match donde_esta(g, actual) {
            Some(k) => k,
            None => return None,
        };
        match &g[k].2 {
            Some(f) => return Some(f.clone()),
            None => {},
        }
        match g[k].1 {
            Some(p) => { actual = p; },
            None => return None,
        }
        vueltas = vueltas + 1;
    }
    None
}

/// ¿Es un campo de firma? Lo es si su `/FT` heredado es `Sig`: las firmas
/// no son datos del formulario, ni se exportan ni se rellenan.
pub fn es_firma(g: &Vec<ConPadre<Option<String>>>, campo: Referencia) -> (r: bool)
    ensures
        r == (ft_en(vista_ft(g@), campo, 16) == Some("Sig"@)),
{
    match heredado_ft(g, campo) {
        Some(f) => crate::cadenas::mismo_texto(f.as_str(), "Sig"),
        None => false,
    }
}

/// El eslabón anterior al `k`-ésimo de la cadena que sube desde `x`.
pub open spec fn anterior(x: Referencia, r: Seq<Referencia>, k: int) -> Referencia {
    if k == 0 { x } else { r[k - 1] }
}

/// ¿Ha salido ya `p` antes del eslabón `k` (contando `x`)?
pub open spec fn ya_salio(x: Referencia, r: Seq<Referencia>, p: Referencia, k: int) -> bool {
    p == x || r.take(k).contains(p)
}

/// ¿Es `r` la cadena de padres de `x`: cada uno el `/Parent` del anterior,
/// sin repetir ninguno (ni `x`), hasta que el último no tiene ficha, no
/// tiene padre o su padre ya había salido?
pub open spec fn cadena_de_padres_spec(g: Seq<ConPadre<()>>, x: Referencia, r: Seq<Referencia>) -> bool {
    &&& forall|k: int| 0 <= k < r.len() ==> #[trigger] ficha(g, anterior(x, r, k)) == Some((Some(r[k]), ()))
    &&& forall|k: int| 0 <= k < r.len() ==> !ya_salio(x, r, #[trigger] r[k], k)
    &&& match ficha(g, anterior(x, r, r.len() as int)) {
        Some((Some(p), _)) => ya_salio(x, r, p, r.len() as int),
        _ => true,
    }
}

/// Los números de los objetos de la lista.
pub open spec fn numeros<D>(g: Seq<ConPadre<D>>) -> Seq<Referencia> {
    g.map_values(|e: ConPadre<D>| e.0)
}

proof fn con_ficha_esta(g: Seq<ConPadre<()>>, y: Referencia)
    requires
        ficha(g, y) is Some,
    ensures
        numeros(g).contains(y),
    decreases g.len(),
{
    if g[0].0 == y {
        assert(numeros(g)[0] == y);
    } else {
        con_ficha_esta(g.drop_first(), y);
        let k = choose|k: int| 0 <= k < numeros(g.drop_first()).len() && numeros(g.drop_first())[k] == y;
        assert(numeros(g)[k + 1] == y);
    }
}

/// Cada eslabón de la cadena, `x` incluido, es un objeto distinto con
/// ficha, así que no hay más que objetos.
proof fn no_mas_que_objetos(g: Seq<ConPadre<()>>, x: Referencia, r: Seq<Referencia>)
    requires
        forall|k: int| 0 <= k <= r.len() ==> #[trigger] ficha(g, anterior(x, r, k)) is Some,
        forall|k: int| 0 <= k < r.len() ==> !ya_salio(x, r, #[trigger] r[k], k),
    ensures
        r.len() + 1 <= g.len(),
{
    let e = seq![x] + r;
    assert(e.no_duplicates()) by {
        assert forall|a: int, b: int| 0 <= a < e.len() && 0 <= b < e.len() && a != b implies e[a] != e[b] by {
            let (i, j) = if a < b { (a, b) } else { (b, a) };
            assert(!ya_salio(x, r, r[j - 1], j - 1));
            if i > 0 {
                assert(r.take(j - 1)[i - 1] == r[i - 1]);
            }
        }
    }
    e.unique_seq_to_set();
    assert forall|y: Referencia| e.to_set().contains(y) implies numeros(g).to_set().contains(y) by {
        let k = choose|k: int| 0 <= k < e.len() && e[k] == y;
        assert(anterior(x, r, k) == y);
        assert(ficha(g, anterior(x, r, k)) is Some);
        con_ficha_esta(g, y);
    }
    numeros(g).lemma_cardinality_of_set();
    vstd::set_lib::lemma_len_subset(e.to_set(), numeros(g).to_set());
}

/// La cadena de padres de un objeto, del más cercano al más lejano,
/// cortando los ciclos: un `/Parent` que vuelve sobre sus pasos acaba la
/// cadena.
pub fn cadena_de_padres(g: &Vec<ConPadre<()>>, x: Referencia) -> (r: Vec<Referencia>)
    ensures
        cadena_de_padres_spec(g@, x, r@),
{
    let mut out: Vec<Referencia> = Vec::new();
    let mut actual = x;
    loop
        invariant
            actual == anterior(x, out@, out@.len() as int),
            forall|k: int| 0 <= k < out@.len() ==> #[trigger] ficha(g@, anterior(x, out@, k)) == Some((Some(out@[k]), ())),
            forall|k: int| 0 <= k < out@.len() ==> !ya_salio(x, out@, #[trigger] out@[k], k),
            out@.len() <= g@.len(),
        decreases g@.len() - out@.len(),
    {
        match ficha_exec(g, actual) {
            Some((Some(p), _)) => {
                let ya = (p.0 == x.0 && p.1 == x.1) || esta(&out, p);
                if ya {
                    assert(out@.take(out@.len() as int) =~= out@);
                    return out;
                }
                proof {
                    assert forall|k: int| 0 <= k <= out@.len() implies #[trigger] ficha(g@, anterior(x, out@, k)) is Some by {
                        if k < out@.len() {
                            assert(ficha(g@, anterior(x, out@, k)) == Some((Some(out@[k]), ())));
                        }
                    }
                    no_mas_que_objetos(g@, x, out@);
                }
                let ghost antes = out@;
                out.push(p);
                proof {
                    assert forall|k: int| 0 <= k < out@.len() implies #[trigger] ficha(g@, anterior(x, out@, k)) == Some((Some(out@[k]), ())) by {
                        assert(anterior(x, out@, k) == anterior(x, antes, k));
                    }
                    assert forall|k: int| 0 <= k < out@.len() implies !ya_salio(x, out@, #[trigger] out@[k], k) by {
                        assert(out@.take(k) =~= antes.take(k)) by {
                            if k < antes.len() {
                                assert(out@.take(k) =~= antes.take(k));
                            } else {
                                assert(antes.take(k) =~= antes);
                            }
                        }
                        if k < antes.len() {
                            assert(out@[k] == antes[k]);
                        }
                    }
                }
                actual = p;
            },
            _ => {
                return out;
            },
        }
    }
}

} // verus!

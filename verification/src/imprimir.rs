//! **La composición de impresión**: varias páginas por hoja, folleto y
//! póster. Aquí se decide qué páginas entran, en qué hoja va cada una y en
//! qué hueco, y cuántas hojas de papel salen. Colocar el contenido de cada
//! página con su matriz (con tamaños en puntos, que son números de coma
//! flotante) lo hace quien escribe el PDF compuesto.

use vstd::prelude::*;
use crate::cadenas::{mismo_texto, une};

verus! {

/// Lo que sale de componer.
pub struct Composicion {
    /// El PDF compuesto, para rasterizarlo e imprimirlo.
    pub path: String,
    /// Hojas de papel: en un folleto a doble cara, la mitad de las caras.
    pub hojas: u16,
    /// Caras impresas, o sea páginas del PDF compuesto.
    pub caras: u16,
    /// Páginas del documento que han entrado.
    pub paginas: u16,
}

/// Las tres composiciones.
#[derive(PartialEq, Eq, Structural, Clone, Copy, Debug)]
pub enum Modo {
    Nup,
    Folleto,
    Poster,
}

/// La composición que nombra la interfaz: `"nup"`, `"folleto"` o
/// `"poster"`.
pub fn modo_de(modo: &str) -> (r: Result<Modo, String>)
    ensures
        modo@ == "nup"@ ==> r == Ok::<Modo, String>(Modo::Nup),
        modo@ == "folleto"@ ==> r == Ok::<Modo, String>(Modo::Folleto),
        modo@ == "poster"@ ==> r == Ok::<Modo, String>(Modo::Poster),
        modo@ != "nup"@ && modo@ != "folleto"@ && modo@ != "poster"@ ==> r is Err && r->Err_0@ == "Composición desconocida: "@ + modo@,
{
    proof {
        reveal_strlit("nup");
        reveal_strlit("folleto");
        reveal_strlit("poster");
        assert("nup"@ != "folleto"@ && "nup"@ != "poster"@ && "folleto"@ != "poster"@) by {
            assert("nup"@.len() == 3);
            assert("folleto"@.len() == 7);
            assert("poster"@.len() == 6);
        }
    }
    if mismo_texto(modo, "nup") {
        Ok(Modo::Nup)
    } else if mismo_texto(modo, "folleto") {
        Ok(Modo::Folleto)
    } else if mismo_texto(modo, "poster") {
        Ok(Modo::Poster)
    } else {
        Err(une("Composición desconocida: ", modo))
    }
}

/// Las columnas y filas de un N-up: las cinco de Acrobat.
pub open spec fn rejilla_spec(n: u8) -> Option<(u8, u8)> {
    if n == 2 { Some((1u8, 2u8)) }
    else if n == 4 { Some((2u8, 2u8)) }
    else if n == 6 { Some((2u8, 3u8)) }
    else if n == 9 { Some((3u8, 3u8)) }
    else if n == 16 { Some((4u8, 4u8)) }
    else { None }
}

pub fn rejilla(n: u8) -> (r: Result<(u8, u8), String>)
    ensures
        match rejilla_spec(n) {
            Some(cf) => r == Ok::<(u8, u8), String>(cf),
            None => r is Err && r->Err_0@ == "Las páginas por hoja son 2, 4, 6, 9 o 16"@,
        },
{
    if n == 2 { Ok((1, 2)) }
    else if n == 4 { Ok((2, 2)) }
    else if n == 6 { Ok((2, 3)) }
    else if n == 9 { Ok((3, 3)) }
    else if n == 16 { Ok((4, 4)) }
    else { Err(String::from_str("Las páginas por hoja son 2, 4, 6, 9 o 16")) }
}

// ---------------------------------------------------------------------
// Qué páginas entran
// ---------------------------------------------------------------------

/// Las páginas pedidas que están en el documento, en el orden en que se
/// pidieron.
pub open spec fn pedidas_dentro(total: nat, v: Seq<u16>) -> Seq<usize>
    decreases v.len(),
{
    if v.len() == 0 {
        Seq::empty()
    } else if (v.last() as nat) < total {
        pedidas_dentro(total, v.drop_last()).push(v.last() as usize)
    } else {
        pedidas_dentro(total, v.drop_last())
    }
}

/// Las páginas que entran en la composición: las pedidas que estén en el
/// documento o, sin lista, todas.
pub open spec fn elegidas_spec(total: nat, pedidas: Option<Seq<u16>>) -> Seq<usize> {
    match pedidas {
        Some(v) => pedidas_dentro(total, v),
        None => Seq::new(total, |i: int| i as usize),
    }
}

pub fn paginas_elegidas(total: usize, pedidas: &Option<Vec<u16>>) -> (r: Result<Vec<usize>, String>)
    ensures
        match pedidas {
            Some(v) => elegidas_spec(total as nat, Some(v@)).len() == 0 <==> r is Err,
            None => elegidas_spec(total as nat, None).len() == 0 <==> r is Err,
        },
        r matches Ok(e) ==> match pedidas {
            Some(v) => e@ == elegidas_spec(total as nat, Some(v@)),
            None => e@ == elegidas_spec(total as nat, None),
        },
        r matches Err(m) ==> m@ == "No hay ninguna página que componer"@,
{
    let mut out: Vec<usize> = Vec::new();
    match pedidas {
        Some(v) => {
            let mut k: usize = 0;
            while k < v.len()
                invariant
                    k <= v.len(),
                    out@ == pedidas_dentro(total as nat, v@.take(k as int)),
                decreases v.len() - k,
            {
                assert(v@.take(k + 1).drop_last() =~= v@.take(k as int));
                if (v[k] as usize) < total {
                    out.push(v[k] as usize);
                }
                k = k + 1;
            }
            assert(v@.take(v.len() as int) =~= v@);
        },
        None => {
            let mut k: usize = 0;
            while k < total
                invariant
                    k <= total,
                    out@ == Seq::new(k as nat, |i: int| i as usize),
                decreases total - k,
            {
                out.push(k);
                assert(out@ =~= Seq::new((k + 1) as nat, |i: int| i as usize));
                k = k + 1;
            }
        },
    }
    if out.len() == 0 {
        Err(String::from_str("No hay ninguna página que componer"))
    } else {
        Ok(out)
    }
}

// ---------------------------------------------------------------------
// Varias páginas por hoja
// ---------------------------------------------------------------------

/// Un hueco de una hoja: qué página va, en qué columna y en qué fila
/// (contando desde arriba, que es como se lee).
#[derive(PartialEq, Eq, Structural, Clone, Copy, Debug)]
pub struct Celda {
    pub pagina: usize,
    pub col: u8,
    pub fila: u8,
}

/// Dónde va la página `i` de una hoja: por filas (horizontal, el defecto)
/// o por columnas (vertical).
pub open spec fn celda_spec(i: nat, cols: nat, filas: nat, vertical: bool) -> (nat, nat) {
    if vertical { (i / filas, i % filas) } else { (i % cols, i / cols) }
}

/// Cuántas hojas salen de `paginas` páginas de `n` en `n`.
pub open spec fn hojas_nup(paginas: nat, n: nat) -> nat {
    if n == 0 { 0 } else { paginas / n + if paginas % n == 0 { 0nat } else { 1nat } }
}

/// El número de hojas es el único que cubre todas las páginas sin dejar
/// una hoja vacía.
proof fn hojas_justas(p: nat, n: nat, h: nat)
    requires
        n > 0,
        h * n >= p,
        h * n < p + n,
    ensures
        hojas_nup(p, n) == h,
{
    vstd::arithmetic::div_mod::lemma_fundamental_div_mod(p as int, n as int);
    let q = p / n;
    let r = p % n;
    assert(p == n * q + r);
    if r == 0 {
        assert(h == q) by (nonlinear_arith)
            requires n > 0, h * n >= n * q, h * n < n * q + n;
    } else {
        assert(h == q + 1) by (nonlinear_arith)
            requires n > 0, 0 < r < n, h * n >= n * q + r, h * n < n * q + r + n;
    }
}

/// El reparto de un N-up bien formado: cada hoja lleva las páginas
/// siguientes, de `n` en `n`, cada una en su hueco.
pub open spec fn reparto_correcto(h: Seq<Vec<Celda>>, paginas: nat, n: nat, cols: nat, filas: nat, vertical: bool) -> bool {
    &&& h.len() == hojas_nup(paginas, n)
    &&& forall|s: int| #![trigger h[s]] 0 <= s < h.len() ==> {
        &&& h[s]@.len() == (if (s + 1) * n <= paginas { n as int } else { paginas - s * n })
        &&& forall|j: int| #![trigger h[s]@[j]] 0 <= j < h[s]@.len() ==> {
            &&& h[s]@[j].pagina == s * n + j
            &&& (h[s]@[j].col as nat, h[s]@[j].fila as nat) == celda_spec(j as nat, cols, filas, vertical)
        }
    }
}

/// El reparto de las páginas en hojas de un N-up: `por_hoja` páginas por
/// hoja (2 si no se dice), por filas o por columnas.
pub fn reparto_nup(paginas: usize, por_hoja: Option<u8>, vertical: bool) -> (r: Result<Vec<Vec<Celda>>, String>)
    requires
        paginas <= usize::MAX - 16,
    ensures
        ({
            let n = match por_hoja { Some(n) => n, None => 2u8 };
            match rejilla_spec(n) {
                None => r is Err && r->Err_0@ == "Las páginas por hoja son 2, 4, 6, 9 o 16"@,
                Some((cols, filas)) => r is Ok && reparto_correcto(r->Ok_0@, paginas as nat, n as nat, cols as nat, filas as nat, vertical),
            }
        }),
{
    let n: u8 = match por_hoja { Some(n) => n, None => 2 };
    let (cols, filas) = rejilla(n)?;
    let nn = n as usize;
    let mut hojas: Vec<Vec<Celda>> = Vec::new();
    let mut desde: usize = 0;
    while desde < paginas
        invariant
            rejilla_spec(n) == Some((cols, filas)),
            nn == n as usize,
            2 <= nn <= 16,
            paginas <= usize::MAX - 16,
            desde == hojas@.len() * nn,
            desde < paginas + nn,
            forall|s: int| #![trigger hojas@[s]] 0 <= s < hojas@.len() ==> {
                &&& hojas@[s]@.len() == (if (s + 1) * nn <= paginas { nn as int } else { paginas - s * nn })
                &&& forall|j: int| #![trigger hojas@[s]@[j]] 0 <= j < hojas@[s]@.len() ==> {
                    &&& hojas@[s]@[j].pagina == s * nn + j
                    &&& (hojas@[s]@[j].col as nat, hojas@[s]@[j].fila as nat) == celda_spec(j as nat, cols as nat, filas as nat, vertical)
                }
            },
        decreases paginas + nn - desde,
    {
        let hasta = if paginas - desde < nn { paginas } else { desde + nn };
        let mut hoja: Vec<Celda> = Vec::new();
        let mut i: usize = 0;
        while desde + i < hasta
            invariant
                rejilla_spec(n) == Some((cols, filas)),
                desde <= hasta,
                i <= hasta - desde,
                hoja@.len() == i,
                hasta <= paginas,
                hasta - desde <= nn,
                nn == n as usize,
                2 <= nn <= 16,
                forall|j: int| #![trigger hoja@[j]] 0 <= j < i ==> {
                    &&& hoja@[j].pagina == desde + j
                    &&& (hoja@[j].col as nat, hoja@[j].fila as nat) == celda_spec(j as nat, cols as nat, filas as nat, vertical)
                },
            decreases hasta - desde - i,
        {
            let (col, fila) = if vertical {
                ((i / (filas as usize)) as u8, (i % (filas as usize)) as u8)
            } else {
                ((i % (cols as usize)) as u8, (i / (cols as usize)) as u8)
            };
            hoja.push(Celda { pagina: desde + i, col, fila });
            i = i + 1;
        }
        let ghost s = hojas@.len() as int;
        assert((s + 1) * nn == s * nn + nn) by (nonlinear_arith);
        hojas.push(hoja);
        desde = desde + nn;
    }
    proof { hojas_justas(paginas as nat, nn as nat, hojas@.len()); }
    Ok(hojas)
}

/// **Dos páginas de una hoja no caen en el mismo hueco**: dentro de la
/// rejilla, cada posición de la hoja tiene su columna y su fila.
pub proof fn ley_huecos_distintos(i: nat, j: nat, cols: nat, filas: nat, vertical: bool)
    requires
        cols > 0,
        filas > 0,
        i < cols * filas,
        j < cols * filas,
        i != j,
    ensures
        celda_spec(i, cols, filas, vertical) != celda_spec(j, cols, filas, vertical),
{
    if vertical {
        vstd::arithmetic::div_mod::lemma_fundamental_div_mod(i as int, filas as int);
        vstd::arithmetic::div_mod::lemma_fundamental_div_mod(j as int, filas as int);
    } else {
        vstd::arithmetic::div_mod::lemma_fundamental_div_mod(i as int, cols as int);
        vstd::arithmetic::div_mod::lemma_fundamental_div_mod(j as int, cols as int);
    }
}

/// Los huecos caen dentro de la rejilla.
pub proof fn ley_huecos_en_la_rejilla(i: nat, cols: nat, filas: nat, vertical: bool)
    requires
        cols > 0,
        filas > 0,
        i < cols * filas,
    ensures
        celda_spec(i, cols, filas, vertical).0 < cols,
        celda_spec(i, cols, filas, vertical).1 < filas,
{
    if vertical {
        vstd::arithmetic::div_mod::lemma_div_is_ordered(i as int, (cols * filas - 1) as int, filas as int);
        assert((cols * filas - 1) / (filas as int) < cols) by (nonlinear_arith)
            requires cols > 0, filas > 0;
    } else {
        assert((i as int) / (cols as int) < filas) by (nonlinear_arith)
            requires cols > 0, filas > 0, i < cols * filas;
    }
}

// ---------------------------------------------------------------------
// Folleto
// ---------------------------------------------------------------------

/// Las páginas de un folleto, rellenadas hasta un múltiplo de cuatro.
pub open spec fn total_folleto(n: nat) -> nat {
    ((n + 3) / 4 * 4) as nat
}

/// La página `i`, si existe (las del relleno van en blanco).
pub open spec fn hay(n: nat, i: int) -> Option<usize> {
    if 0 <= i < n { Some(i as usize) } else { None }
}

/// La cara `k` de un folleto grapado por el centro: las pares llevan la
/// última que queda a la izquierda y la primera a la derecha, y las impares
/// al revés. Con ocho páginas: 8-1, 2-7, 6-3, 4-5.
pub open spec fn cara_folleto(n: nat, k: int) -> (Option<usize>, Option<usize>) {
    let t = total_folleto(n);
    if k % 2 == 0 { (hay(n, t - 1 - k), hay(n, k)) } else { (hay(n, k), hay(n, t - 1 - k)) }
}

/// El orden de las páginas de un folleto grapado por el centro: cada cara
/// lleva dos, y la primera es la última con la primera. Las que faltan
/// para llenar el múltiplo de cuatro van en blanco (`None`).
pub fn orden_de_folleto(paginas: usize) -> (r: Vec<(Option<usize>, Option<usize>)>)
    requires
        paginas <= usize::MAX - 3,
    ensures
        r@.len() == total_folleto(paginas as nat) / 2,
        forall|k: int| 0 <= k < r@.len() ==> #[trigger] r@[k] == cara_folleto(paginas as nat, k),
{
    let total = (paginas + 3) / 4 * 4;
    let caras = total / 2;
    let mut out: Vec<(Option<usize>, Option<usize>)> = Vec::new();
    let mut k: usize = 0;
    while k < caras
        invariant
            total == total_folleto(paginas as nat),
            caras == total / 2,
            k <= caras,
            out@.len() == k,
            forall|j: int| 0 <= j < k ==> #[trigger] out@[j] == cara_folleto(paginas as nat, j),
        decreases caras - k,
    {
        let otra = total - 1 - k;
        let a = if otra < paginas { Some(otra) } else { None };
        let b = if k < paginas { Some(k) } else { None };
        if k % 2 == 0 {
            out.push((a, b));
        } else {
            out.push((b, a));
        }
        k = k + 1;
    }
    out
}

/// Dónde cae la página `p` en el folleto: en qué cara y si a la izquierda.
pub open spec fn lugar_en_folleto(n: nat, p: nat) -> (int, bool) {
    let t = total_folleto(n);
    if p < t / 2 { (p as int, p % 2 == 1) } else { ((t - 1 - p) as int, (t - 1 - p) % 2 == 0) }
}

/// Lo que hay en un lado de una cara.
pub open spec fn lado(c: (Option<usize>, Option<usize>), izquierda: bool) -> Option<usize> {
    if izquierda { c.0 } else { c.1 }
}

/// **Cada página del documento va en el folleto exactamente una vez**: en
/// la cara y el lado que dice `lugar_en_folleto`, y en ningún otro; el
/// resto de huecos van en blanco o con otras páginas.
pub proof fn ley_folleto_una_vez_cada_pagina(n: nat, p: nat, k: int, izquierda: bool)
    requires
        p < n,
        n <= usize::MAX,
        0 <= k < total_folleto(n) / 2,
    ensures
        0 <= lugar_en_folleto(n, p).0 < total_folleto(n) / 2,
        lado(cara_folleto(n, k), izquierda) == Some(p as usize) <==> (k, izquierda) == lugar_en_folleto(n, p),
{
    let t = total_folleto(n);
    let m = (n + 3) / 4;
    vstd::arithmetic::div_mod::lemma_fundamental_div_mod((n + 3) as int, 4);
    assert(t == 4 * m);
    assert(n <= t);
    let (kl, izl) = lugar_en_folleto(n, p);
    if k % 2 == 0 {
        assert(cara_folleto(n, k) == (hay(n, t - 1 - k), hay(n, k)));
    } else {
        assert(cara_folleto(n, k) == (hay(n, k), hay(n, t - 1 - k)));
    }
    if p < t / 2 {
        assert(kl == p);
    } else {
        assert(kl == t - 1 - p);
    }
}

/// Las dos páginas de una cara suman lo que mide el folleto menos una: al
/// doblar la hoja, cada una cae frente a su pareja.
pub proof fn ley_folleto_parejas(n: nat, k: int)
    requires
        n <= usize::MAX,
        0 <= k < total_folleto(n) / 2,
    ensures
        cara_folleto(n, k).0 matches Some(a) ==> cara_folleto(n, k).1 matches Some(b) ==> a + b == total_folleto(n) - 1,
{
}

/// Las caras que se imprimen en esta pasada: `"ambas"` (por defecto),
/// `"anverso"` (las pares: 1.ª, 3.ª…) o `"reverso"` (las impares); con
/// encuadernación a la derecha cada cara va al revés.
pub open spec fn caras_elegidas(orden: Seq<(Option<usize>, Option<usize>)>, pasada: nat, derecha: bool) -> Seq<(Option<usize>, Option<usize>)>
    decreases orden.len(),
{
    if orden.len() == 0 {
        Seq::empty()
    } else {
        let i = orden.len() - 1;
        let antes = caras_elegidas(orden.drop_last(), pasada, derecha);
        let salta = (pasada == 1 && i % 2 == 1) || (pasada == 2 && i % 2 == 0);
        if salta {
            antes
        } else {
            let (a, b) = orden.last();
            antes.push(if derecha { (b, a) } else { (a, b) })
        }
    }
}

/// **El anverso son las caras pares y el reverso las impares**: en la
/// primera pasada salen, en su orden, las caras 1.ª, 3.ª, 5.ª… del folleto
/// (índices 0, 2, 4…); en la segunda, la 2.ª, 4.ª… (índices 1, 3…); con las
/// dos, todas. Con la encuadernación a la derecha cada cara sale con sus
/// dos lados cambiados.
pub proof fn ley_pasadas(orden: Seq<(Option<usize>, Option<usize>)>, derecha: bool)
    ensures
        caras_elegidas(orden, 0, derecha).len() == orden.len(),
        forall|k: int| 0 <= k < orden.len() ==> #[trigger] caras_elegidas(orden, 0, derecha)[k]
            == (if derecha { (orden[k].1, orden[k].0) } else { orden[k] }),
        caras_elegidas(orden, 1, derecha).len() == (orden.len() + 1) / 2,
        forall|k: int| 0 <= k < (orden.len() + 1) / 2 ==> #[trigger] caras_elegidas(orden, 1, derecha)[k]
            == (if derecha { (orden[2 * k].1, orden[2 * k].0) } else { orden[2 * k] }),
        caras_elegidas(orden, 2, derecha).len() == orden.len() / 2,
        forall|k: int| 0 <= k < orden.len() / 2 ==> #[trigger] caras_elegidas(orden, 2, derecha)[k]
            == (if derecha { (orden[2 * k + 1].1, orden[2 * k + 1].0) } else { orden[2 * k + 1] }),
    decreases orden.len(),
{
    if orden.len() > 0 {
        let o = orden.drop_last();
        ley_pasadas(o, derecha);
        let n = orden.len();
        let i = n - 1;
        assert forall|k: int| 0 <= k < o.len() implies #[trigger] o[k] == orden[k] by {}
        if i % 2 == 0 {
            assert((n + 1) / 2 == (o.len() + 1) / 2 + 1);
            assert(n / 2 == o.len() / 2);
        } else {
            assert((n + 1) / 2 == (o.len() + 1) / 2);
            assert(n / 2 == o.len() / 2 + 1);
        }
    }
}

/// Qué pasada de la impresora nombra la interfaz: 0 ambas, 1 anverso, 2
/// reverso.
pub open spec fn pasada_spec(caras: Seq<char>) -> Option<nat> {
    if caras == "ambas"@ { Some(0) } else if caras == "anverso"@ { Some(1) } else if caras == "reverso"@ { Some(2) } else { None }
}

/// Folleto: las caras que se imprimen, con lo que va a cada lado.
pub fn caras_de_folleto(paginas: usize, encuadernacion: Option<&str>, caras: Option<&str>) -> (r: Result<Vec<(Option<usize>, Option<usize>)>, String>)
    requires
        paginas <= usize::MAX - 3,
    ensures
        ({
            let pasada = match caras { Some(c) => pasada_spec(c@), None => Some(0nat) };
            let derecha = match encuadernacion { Some(e) => e@ == "derecha"@, None => false };
            let orden = Seq::new(total_folleto(paginas as nat) / 2, |k: int| cara_folleto(paginas as nat, k));
            match pasada {
                None => r is Err && r->Err_0@ == "Las caras son «ambas», «anverso» o «reverso»"@,
                Some(p) => r is Ok && r->Ok_0@ == caras_elegidas(orden, p, derecha),
            }
        }),
        ({
            let pasada = match caras { Some(c) => pasada_spec(c@), None => Some(0nat) };
            let derecha = match encuadernacion { Some(e) => e@ == "derecha"@, None => false };
            let orden = Seq::new(total_folleto(paginas as nat) / 2, |k: int| cara_folleto(paginas as nat, k));
            r matches Ok(v) ==> {
                &&& pasada == Some(1nat) ==> v@.len() == (orden.len() + 1) / 2
                    && forall|k: int| 0 <= k < v@.len() ==> #[trigger] v@[k]
                        == (if derecha { (orden[2 * k].1, orden[2 * k].0) } else { orden[2 * k] })
                &&& pasada == Some(2nat) ==> v@.len() == orden.len() / 2
                    && forall|k: int| 0 <= k < v@.len() ==> #[trigger] v@[k]
                        == (if derecha { (orden[2 * k + 1].1, orden[2 * k + 1].0) } else { orden[2 * k + 1] })
            }
        }),
{
    let derecha = match encuadernacion { Some(e) => mismo_texto(e, "derecha"), None => false };
    let pasada: u8 = match caras {
        None => 0,
        Some(c) => {
            if mismo_texto(c, "ambas") { 0 }
            else if mismo_texto(c, "anverso") { 1 }
            else if mismo_texto(c, "reverso") { 2 }
            else { return Err(String::from_str("Las caras son «ambas», «anverso» o «reverso»")); }
        },
    };
    let orden = orden_de_folleto(paginas);
    let ghost todo = Seq::new(total_folleto(paginas as nat) / 2, |k: int| cara_folleto(paginas as nat, k));
    assert(orden@ =~= todo);
    let mut out: Vec<(Option<usize>, Option<usize>)> = Vec::new();
    let mut i: usize = 0;
    while i < orden.len()
        invariant
            orden@ == todo,
            i <= orden.len(),
            out@ == caras_elegidas(todo.take(i as int), pasada as nat, derecha),
        decreases orden.len() - i,
    {
        assert(todo.take(i + 1).drop_last() =~= todo.take(i as int));
        let salta = (pasada == 1 && i % 2 == 1) || (pasada == 2 && i % 2 == 0);
        if !salta {
            let (a, b) = orden[i];
            if derecha { out.push((b, a)); } else { out.push((a, b)); }
        }
        i = i + 1;
    }
    assert(todo.take(orden.len() as int) =~= todo);
    proof {
        ley_pasadas(todo, derecha);
    }
    Ok(out)
}

/// Hojas de papel: los folletos a doble cara gastan media hoja por cara.
pub fn hojas_de_papel(modo: Modo, caras: u16) -> (r: u16)
    ensures
        modo == Modo::Folleto && caras > 1 ==> r == (caras + 1) / 2,
        !(modo == Modo::Folleto && caras > 1) ==> r == caras,
{
    if modo == Modo::Folleto && caras > 1 {
        caras / 2 + caras % 2
    } else {
        caras
    }
}

} // verus!

//! Gestión de páginas: qué páginas se borran, giran, mueven o extraen, y
//! todo lo que se comprueba antes de tocar el documento. Las páginas se
//! cuentan desde 0; al usuario se le nombran desde 1.

use vstd::prelude::*;
use crate::cadenas::{cadena_de, caracteres, decimal, decimal_spec, mismo_texto, rellena_izquierda, une};

verus! {

/// Los índices como conjunto.
pub open spec fn conjunto(s: Seq<u16>) -> Set<u16> {
    s.to_set()
}

/// ¿Va la sucesión de menor a mayor sin repetir ninguno?
pub open spec fn creciente(s: Seq<u16>) -> bool {
    forall|i: int, j: int| 0 <= i < j < s.len() ==> s[i] < s[j]
}

/// ¿Va la sucesión de mayor a menor sin repetir ninguno?
pub open spec fn decreciente(s: Seq<u16>) -> bool {
    forall|i: int, j: int| 0 <= i < j < s.len() ==> s[i] > s[j]
}

/// Los índices pedidos, de menor a mayor y sin repetidos.
pub fn ordenados_sin_repetir(indices: &Vec<u16>) -> (r: Vec<u16>)
    ensures
        creciente(r@),
        forall|x: u16| r@.contains(x) <==> indices@.contains(x),
{
    let mut r: Vec<u16> = Vec::new();
    let mut i: usize = 0;
    while i < indices.len()
        invariant
            i <= indices.len(),
            creciente(r@),
            forall|x: u16| r@.contains(x) <==> indices@.take(i as int).contains(x),
        decreases indices.len() - i,
    {
        let x = indices[i];
        let mut p: usize = 0;
        while p < r.len() && r[p] < x
            invariant
                p <= r.len(),
                forall|k: int| 0 <= k < p ==> r@[k] < x,
            decreases r.len() - p,
        {
            p = p + 1;
        }
        let ghost antes = r@;
        if p < r.len() && r[p] == x {
            assert(antes[p as int] == x);
            assert forall|y: u16| #[trigger] r@.contains(y) <==> antes.contains(y) || y == x by {}
        } else {
            r.insert(p, x);
            assert forall|a: int, b: int| 0 <= a < b < r@.len() implies r@[a] < r@[b] by {
                if b < p as int {
                    assert(r@[a] == antes[a] && r@[b] == antes[b]);
                } else if b == p as int {
                    assert(r@[a] == antes[a]);
                } else if a < p as int {
                    assert(r@[a] == antes[a] && r@[b] == antes[b - 1]);
                    assert(antes[a] < x);
                    assert(antes[p as int] >= x);
                } else if a == p as int {
                    assert(r@[b] == antes[b - 1]);
                    assert(antes[p as int] > x);
                    assert(antes[p as int] <= antes[b - 1]);
                } else {
                    assert(r@[a] == antes[a - 1] && r@[b] == antes[b - 1]);
                }
            }
            assert forall|y: u16| #[trigger] r@.contains(y) <==> antes.contains(y) || y == x by {
                if r@.contains(y) {
                    let k = choose|k: int| 0 <= k < r@.len() && r@[k] == y;
                    if k < p as int {
                        assert(antes[k] == y);
                    } else if k > p as int {
                        assert(antes[k - 1] == y);
                    }
                }
                if antes.contains(y) {
                    let k = choose|k: int| 0 <= k < antes.len() && antes[k] == y;
                    if k < p as int {
                        assert(r@[k] == y);
                    } else {
                        assert(r@[k + 1] == y);
                    }
                }
                if y == x {
                    assert(r@[p as int] == x);
                }
            }
        }
        assert(forall|y: u16| #[trigger] r@.contains(y) <==> antes.contains(y) || y == x);
        proof {
            assert(indices@.take(i + 1) =~= indices@.take(i as int).push(x));
            assert forall|y: u16| indices@.take(i + 1).contains(y) <==> indices@.take(i as int).contains(y) || y == x by {
                let t = indices@.take(i as int);
                let t1 = indices@.take(i + 1);
                if t1.contains(y) {
                    let k = choose|k: int| 0 <= k < t1.len() && t1[k] == y;
                    if k < i {
                        assert(t[k] == y);
                    }
                }
                if t.contains(y) {
                    let k = choose|k: int| 0 <= k < t.len() && t[k] == y;
                    assert(indices@.take(i + 1)[k] == y);
                }
                if y == x {
                    assert(indices@.take(i + 1)[i as int] == x);
                }
            }
            assert forall|y: u16| r@.contains(y) <==> indices@.take(i + 1).contains(y) by {
                assert(r@.contains(y) <==> antes.contains(y) || y == x);
                assert(antes.contains(y) <==> indices@.take(i as int).contains(y));
                assert(indices@.take(i + 1).contains(y) <==> indices@.take(i as int).contains(y) || y == x);
            }
        }
        i = i + 1;
    }
    assert(indices@.take(indices.len() as int) =~= indices@);
    r
}

/// El mensaje de una página que ya no está (índice desde 0).
pub open spec fn pagina_que_no_esta(i: u16) -> Seq<char> {
    "La página "@ + decimal_spec((i + 1) as nat) + " ya no está en el documento"@
}

fn mensaje_pagina_que_no_esta(i: u16) -> (r: String)
    ensures
        r@ == pagina_que_no_esta(i),
{
    let n = decimal((i as u64) + 1);
    let a = une("La página ", n.as_str());
    une(a.as_str(), " ya no está en el documento")
}

/// Mensaje de extraer todas las páginas llevándoselas del original.
pub open spec fn no_se_puede_quedar_sin_paginas_al_extraer() -> Seq<char> {
    "No se pueden extraer todas las páginas y borrarlas del original: un documento no puede quedarse sin páginas. Quita la marca de «Eliminar las páginas del original» o deja alguna fuera"@
}

/// El menor de los índices pedidos que se sale de un documento de `total`
/// páginas, si hay alguno.
pub open spec fn menor_fuera(indices: Seq<u16>, total: u16, f: u16) -> bool {
    &&& indices.contains(f)
    &&& f >= total
    &&& forall|x: u16| indices.contains(x) && x >= total ==> f <= x
}

/// Lo que se comprueba antes de extraer `indices` de un documento de
/// `total` páginas: que todas siguen ahí (si no, se nombra la menor que
/// falta) y que, si hay que llevárselas del original, no se las lleva
/// todas.
pub fn revisa_extraccion(total: u16, indices: &Vec<u16>, borrar: bool) -> (r: Result<(), String>)
    ensures
        (exists|f: u16| menor_fuera(indices@, total, f)) ==> (r matches Err(m)
            && exists|f: u16| menor_fuera(indices@, total, f) && m@ == pagina_que_no_esta(f)),
        !(exists|f: u16| menor_fuera(indices@, total, f)) && borrar
            && conjunto(indices@).len() >= total ==> (r matches Err(m)
            && m@ == no_se_puede_quedar_sin_paginas_al_extraer()),
        !(exists|f: u16| menor_fuera(indices@, total, f))
            && !(borrar && conjunto(indices@).len() >= total) ==> r is Ok,
{
    let orden = ordenados_sin_repetir(indices);
    match primera_fuera_de_ordenados(&orden, total) {
        Some(f) => {
            proof { menor_fuera_de_ordenados(orden@, indices@, total, f); }
            return Err(mensaje_pagina_que_no_esta(f));
        },
        None => {
            proof { ninguna_fuera(orden@, indices@, total); }
        },
    }
    proof { cuenta_de_ordenados(orden@, indices@); }
    if borrar && orden.len() >= total as usize {
        return Err(String::from_str(
            "No se pueden extraer todas las páginas y borrarlas del original: un documento no puede quedarse sin páginas. Quita la marca de «Eliminar las páginas del original» o deja alguna fuera",
        ));
    }
    Ok(())
}

/// El primer índice de una lista creciente que se sale del documento.
fn primera_fuera_de_ordenados(orden: &Vec<u16>, total: u16) -> (r: Option<u16>)
    requires
        creciente(orden@),
    ensures
        match r {
            Some(f) => orden@.contains(f) && f >= total && forall|k: int| 0 <= k < orden@.len() && orden@[k] >= total ==> f <= orden@[k],
            None => forall|k: int| 0 <= k < orden@.len() ==> orden@[k] < total,
        },
{
    let mut i: usize = 0;
    while i < orden.len()
        invariant
            i <= orden.len(),
            creciente(orden@),
            forall|k: int| 0 <= k < i ==> orden@[k] < total,
        decreases orden.len() - i,
    {
        if orden[i] >= total {
            assert(orden@.contains(orden@[i as int]));
            assert forall|k: int| 0 <= k < orden@.len() && orden@[k] >= total implies orden@[i as int] <= orden@[k] by {
                if k > i as int {
                    assert(orden@[i as int] < orden@[k]);
                }
            }
            return Some(orden[i]);
        }
        i = i + 1;
    }
    None
}

proof fn menor_fuera_de_ordenados(orden: Seq<u16>, indices: Seq<u16>, total: u16, f: u16)
    requires
        forall|x: u16| orden.contains(x) <==> indices.contains(x),
        orden.contains(f) && f >= total,
        forall|k: int| 0 <= k < orden.len() && orden[k] >= total ==> f <= orden[k],
    ensures
        menor_fuera(indices, total, f),
{
    assert forall|x: u16| indices.contains(x) && x >= total implies f <= x by {
        assert(orden.contains(x));
        let k = choose|k: int| 0 <= k < orden.len() && orden[k] == x;
    }
}

proof fn ninguna_fuera(orden: Seq<u16>, indices: Seq<u16>, total: u16)
    requires
        forall|x: u16| orden.contains(x) <==> indices.contains(x),
        forall|k: int| 0 <= k < orden.len() ==> orden[k] < total,
    ensures
        !(exists|f: u16| menor_fuera(indices, total, f)),
{
    if exists|f: u16| menor_fuera(indices, total, f) {
        let f = choose|f: u16| menor_fuera(indices, total, f);
        assert(orden.contains(f));
        let k = choose|k: int| 0 <= k < orden.len() && orden[k] == f;
    }
}

/// Una lista creciente tiene tantos elementos como su conjunto.
proof fn cuenta_de_ordenados(orden: Seq<u16>, indices: Seq<u16>)
    requires
        creciente(orden),
        forall|x: u16| orden.contains(x) <==> indices.contains(x),
    ensures
        conjunto(indices).len() == orden.len(),
{
    assert(orden.no_duplicates()) by {
        assert forall|i: int, j: int| 0 <= i < orden.len() && 0 <= j < orden.len() && i != j implies orden[i] != orden[j] by {
            if i < j { assert(orden[i] < orden[j]); } else { assert(orden[j] < orden[i]); }
        }
    }
    orden.unique_seq_to_set();
    assert(orden.to_set() =~= indices.to_set());
}

/// Mensaje de borrar todas las páginas.
pub open spec fn no_se_puede_quedar_sin_paginas() -> Seq<char> {
    "Un documento no puede quedarse sin páginas"@
}

/// Las páginas que hay que borrar de un documento de `total` páginas, de
/// mayor a menor (para que borrar una no cambie el índice de las que
/// quedan) y sin repetidas. Falla si alguna ya no está (la menor de ellas)
/// o si se borrarían todas.
pub fn plan_de_borrado(total: u16, indices: &Vec<u16>) -> (r: Result<Vec<u16>, String>)
    ensures
        (exists|f: u16| menor_fuera(indices@, total, f)) ==> (r matches Err(m)
            && exists|f: u16| menor_fuera(indices@, total, f) && m@ == pagina_que_no_esta(f)),
        !(exists|f: u16| menor_fuera(indices@, total, f)) && conjunto(indices@).len() == total
            ==> (r matches Err(m) && m@ == no_se_puede_quedar_sin_paginas()),
        !(exists|f: u16| menor_fuera(indices@, total, f)) && conjunto(indices@).len() != total
            ==> (r matches Ok(p) && decreciente(p@)
                && (forall|x: u16| p@.contains(x) <==> indices@.contains(x))
                && forall|k: int| 0 <= k < p@.len() ==> p@[k] < total),
{
    let orden = ordenados_sin_repetir(indices);
    match primera_fuera_de_ordenados(&orden, total) {
        Some(f) => {
            proof { menor_fuera_de_ordenados(orden@, indices@, total, f); }
            return Err(mensaje_pagina_que_no_esta(f));
        },
        None => {
            proof { ninguna_fuera(orden@, indices@, total); }
        },
    }
    proof { cuenta_de_ordenados(orden@, indices@); }
    if orden.len() == total as usize {
        return Err(String::from_str("Un documento no puede quedarse sin páginas"));
    }
    let mut p: Vec<u16> = Vec::new();
    let mut i: usize = orden.len();
    while i > 0
        invariant
            i <= orden.len(),
            creciente(orden@),
            p@.len() == orden.len() - i,
            forall|k: int| 0 <= k < p@.len() ==> p@[k] == orden@[orden.len() - 1 - k],
        decreases i,
    {
        i = i - 1;
        p.push(orden[i]);
    }
    assert forall|a: int, b: int| 0 <= a < b < p@.len() implies p@[a] > p@[b] by {
        assert(orden@[orden.len() - 1 - b] < orden@[orden.len() - 1 - a]);
    }
    assert forall|x: u16| p@.contains(x) <==> orden@.contains(x) by {
        if p@.contains(x) {
            let k = choose|k: int| 0 <= k < p@.len() && p@[k] == x;
            assert(orden@[orden.len() - 1 - k] == x);
        }
        if orden@.contains(x) {
            let k = choose|k: int| 0 <= k < orden@.len() && orden@[k] == x;
            assert(p@[orden.len() - 1 - k] == x);
        }
    }
    Ok(p)
}

/// Para qué se piden páginas en un lote.
pub enum Lote {
    Eliminar,
    Girar,
    Extraer,
}

/// El mensaje de un lote sin páginas.
pub open spec fn lote_vacio(l: Lote) -> Seq<char> {
    match l {
        Lote::Eliminar => "No hay páginas que eliminar"@,
        Lote::Girar => "No hay páginas que girar"@,
        Lote::Extraer => "No hay páginas que extraer"@,
    }
}

/// Un lote tiene que pedir alguna página.
pub fn hay_paginas(indices: &Vec<u16>, lote: Lote) -> (r: Result<(), String>)
    ensures
        indices.len() == 0 ==> (r matches Err(m) && m@ == lote_vacio(lote)),
        indices.len() > 0 ==> r is Ok,
{
    if indices.len() > 0 {
        return Ok(());
    }
    match lote {
        Lote::Eliminar => Err(String::from_str("No hay páginas que eliminar")),
        Lote::Girar => Err(String::from_str("No hay páginas que girar")),
        Lote::Extraer => Err(String::from_str("No hay páginas que extraer")),
    }
}

/// Los cuartos de vuelta, con signo, reducidos a una vuelta: 0 a 3 en el
/// sentido de las agujas del reloj.
pub fn cuartos_de_vuelta(q: i8) -> (r: u8)
    ensures
        r < 4,
        r as int == (q as int) % 4,
{
    let m = (q as i32) % 4;
    if m < 0 { (m + 4) as u8 } else { m as u8 }
}

/// El giro de una página (en cuartos de vuelta, 0 a 3) tras girarla
/// `cuartos` cuartos más.
pub fn giro_nuevo(actual: u8, cuartos: u8) -> (r: u8)
    requires
        actual < 4,
        cuartos < 4,
    ensures
        r as int == (actual + cuartos) % 4,
{
    (actual + cuartos) % 4
}

/// Girar una página un cuarto de vuelta.
pub fn un_cuarto_mas(actual: u8) -> (r: u8)
    requires
        actual < 4,
    ensures
        r as int == (actual + 1) % 4,
{
    giro_nuevo(actual, 1)
}

/// Girar `q` cuartos y luego `-q` deja la página como estaba, y cuatro
/// cuartos de vuelta son una vuelta entera.
pub proof fn ley_giro(actual: int, q: int)
    requires
        0 <= actual < 4,
    ensures
        (((actual + q % 4) % 4) + (-q) % 4) % 4 == actual,
        (actual + 4) % 4 == actual,
{
    assert((((actual + q % 4) % 4) + (-q) % 4) % 4 == actual) by (nonlinear_arith)
        requires 0 <= actual < 4;
}

/// El primero de los índices, en el orden pedido, que se sale de un
/// documento de `total` páginas; al girar se comprueban uno a uno.
pub fn revisa_giro(total: u16, indices: &Vec<u16>) -> (r: Result<(), String>)
    ensures
        match r {
            Ok(()) => forall|k: int| 0 <= k < indices@.len() ==> indices@[k] < total,
            Err(m) => exists|k: int| 0 <= k < indices@.len() && indices@[k] >= total
                && m@ == pagina_que_no_esta(indices@[k])
                && forall|j: int| 0 <= j < k ==> indices@[j] < total,
        },
{
    let mut i: usize = 0;
    while i < indices.len()
        invariant
            i <= indices.len(),
            forall|k: int| 0 <= k < i ==> indices@[k] < total,
        decreases indices.len() - i,
    {
        if indices[i] >= total {
            return Err(mensaje_pagina_que_no_esta(indices[i]));
        }
        i = i + 1;
    }
    Ok(())
}

/// El orden de las páginas tras mover la de `desde` a `hasta`.
pub open spec fn movida<T>(orden: Seq<T>, desde: int, hasta: int) -> Seq<T> {
    orden.remove(desde).insert(hasta, orden[desde])
}

/// Mueve la página de `desde` a `hasta`. Moverla a donde ya está no hace
/// nada (ni comprueba nada); si alguna posición se sale, es un error.
pub fn mueve<T>(orden: Vec<T>, desde: u16, hasta: u16) -> (r: Result<Vec<T>, String>)
    ensures
        desde == hasta ==> (r matches Ok(o) && o@ == orden@),
        desde != hasta && (desde >= orden.len() || hasta >= orden.len())
            ==> (r matches Err(m) && m@ == "Índice de página fuera de rango"@),
        desde != hasta && desde < orden.len() && hasta < orden.len()
            ==> (r matches Ok(o) && o@ == movida(orden@, desde as int, hasta as int)),
{
    if desde == hasta {
        return Ok(orden);
    }
    let n = orden.len();
    if desde as usize >= n || hasta as usize >= n {
        return Err(String::from_str("Índice de página fuera de rango"));
    }
    let mut o = orden;
    let m = o.remove(desde as usize);
    o.insert(hasta as usize, m);
    Ok(o)
}

/// Mover una página y devolverla a su sitio deja el orden como estaba, y
/// mover no cambia cuántas páginas hay.
pub proof fn ley_mover<T>(orden: Seq<T>, desde: int, hasta: int)
    requires
        0 <= desde < orden.len(),
        0 <= hasta < orden.len(),
    ensures
        movida(orden, desde, hasta).len() == orden.len(),
        movida(movida(orden, desde, hasta), hasta, desde) == orden,
        movida(orden, desde, hasta)[hasta] == orden[desde],
{
    let m = movida(orden, desde, hasta);
    assert(m[hasta] == orden[desde]);
    assert(m.remove(hasta) =~= orden.remove(desde));
    assert(movida(m, hasta, desde) =~= orden);
}

/// El rango que entiende el motor PDF: los números de página (desde 1)
/// separados por comas.
pub open spec fn rango_spec(indices: Seq<u16>) -> Seq<char>
    decreases indices.len(),
{
    if indices.len() == 0 {
        Seq::empty()
    } else if indices.len() == 1 {
        decimal_spec((indices[0] + 1) as nat)
    } else {
        rango_spec(indices.drop_last()) + ","@ + decimal_spec((indices.last() + 1) as nat)
    }
}

pub fn rango_de_paginas(indices: &Vec<u16>) -> (r: String)
    ensures
        r@ == rango_spec(indices@),
{
    let mut r = String::new();
    let mut i: usize = 0;
    while i < indices.len()
        invariant
            i <= indices.len(),
            r@ == rango_spec(indices@.take(i as int)),
        decreases indices.len() - i,
    {
        let n = decimal((indices[i] as u64) + 1);
        proof {
            assert(indices@.take(i + 1).drop_last() =~= indices@.take(i as int));
        }
        if i == 0 {
            r = n;
        } else {
            let a = une(r.as_str(), ",");
            r = une(a.as_str(), n.as_str());
        }
        i = i + 1;
    }
    assert(indices@.take(indices.len() as int) =~= indices@);
    r
}

/// El nombre del fichero de una página extraída sola: `pagina-N.pdf`, con
/// N su número (desde 1) en el original.
pub fn nombre_de_pagina(i: u16) -> (r: String)
    ensures
        r@ == "pagina-"@ + decimal_spec((i + 1) as nat) + ".pdf"@,
{
    let n = decimal((i as u64) + 1);
    let a = une("pagina-", n.as_str());
    une(a.as_str(), ".pdf")
}

/// Las páginas sobre las que trabaja un marginal: las pedidas que están en
/// el documento, de menor a mayor y sin repetir, o todas si no se piden.
pub fn paginas_pedidas(total: u16, pedidas: &Option<Vec<u16>>) -> (r: Vec<u16>)
    ensures
        creciente(r@),
        match pedidas {
            Some(v) => forall|x: u16| r@.contains(x) <==> v@.contains(x) && x < total,
            None => r@.len() == total && forall|k: int| 0 <= k < total ==> r@[k] == k,
        },
{
    match pedidas {
        Some(v) => {
            let mut dentro: Vec<u16> = Vec::new();
            let mut i: usize = 0;
            while i < v.len()
                invariant
                    i <= v.len(),
                    forall|x: u16| dentro@.contains(x) <==> v@.take(i as int).contains(x) && x < total,
                decreases v.len() - i,
            {
                let ghost antes = dentro@;
                let x = v[i];
                if x < total {
                    dentro.push(x);
                }
                proof {
                    let t = v@.take(i as int);
                    let t1 = v@.take(i + 1);
                    assert(t1 =~= t.push(x));
                    assert forall|y: u16| dentro@.contains(y) <==> t1.contains(y) && y < total by {
                        if dentro@.contains(y) && y != x {
                            let k = choose|k: int| 0 <= k < dentro@.len() && dentro@[k] == y;
                            assert(antes[k] == y);
                        }
                        if t1.contains(y) && y != x {
                            let k = choose|k: int| 0 <= k < t1.len() && t1[k] == y;
                            assert(t[k] == y);
                        }
                        if antes.contains(y) {
                            let k = choose|k: int| 0 <= k < antes.len() && antes[k] == y;
                            assert(dentro@[k] == y);
                        }
                        if t.contains(y) {
                            let k = choose|k: int| 0 <= k < t.len() && t[k] == y;
                            assert(t1[k] == y);
                        }
                        if y == x && x < total {
                            assert(dentro@[dentro@.len() - 1] == x);
                        }
                        if y == x {
                            assert(t1[i as int] == x);
                        }
                    }
                }
                i = i + 1;
            }
            assert(v@.take(v.len() as int) =~= v@);
            ordenados_sin_repetir(&dentro)
        },
        None => {
            let mut r: Vec<u16> = Vec::new();
            let mut k: u16 = 0;
            while k < total
                invariant
                    k <= total,
                    r@.len() == k,
                    forall|j: int| 0 <= j < k ==> r@[j] == j,
                decreases total - k,
            {
                r.push(k);
                k = k + 1;
            }
            r
        },
    }
}

/// El número Bates de la página `n`-ésima del lote: el prefijo, el número
/// (empezando en `empieza_en`, nunca antes de 1) con ceros a la izquierda
/// hasta `digitos` cifras (entre 1 y 15) y el sufijo.
pub open spec fn texto_bates_spec(prefijo: Seq<char>, sufijo: Seq<char>, digitos: u8, empieza_en: u32, n: u16) -> Seq<char> {
    let ancho: nat = if digitos < 1 { 1 } else if digitos > 15 { 15 } else { digitos as nat };
    let inicio: nat = if empieza_en < 1 { 1 } else { empieza_en as nat };
    prefijo + rellena_izquierda(decimal_spec((inicio + n) as nat), '0', ancho) + sufijo
}

pub fn texto_bates(prefijo: &str, sufijo: &str, digitos: u8, empieza_en: u32, n: u16) -> (r: String)
    ensures
        r@ == texto_bates_spec(prefijo@, sufijo@, digitos, empieza_en, n),
{
    let ancho: usize = if digitos < 1 { 1 } else if digitos > 15 { 15 } else { digitos as usize };
    let inicio: u64 = if empieza_en < 1 { 1 } else { empieza_en as u64 };
    let numero = decimal(inicio + n as u64);
    let cifras = caracteres(numero.as_str());
    let mut relleno: Vec<char> = Vec::new();
    if cifras.len() < ancho {
        let falta = ancho - cifras.len();
        let mut k: usize = 0;
        while k < falta
            invariant
                k <= falta,
                relleno@ == Seq::new(k as nat, |_i: int| '0'),
            decreases falta - k,
        {
            relleno.push('0');
            assert(relleno@ =~= Seq::new((k + 1) as nat, |_i: int| '0'));
            k = k + 1;
        }
    }
    let ceros = cadena_de(&relleno);
    let a = une(prefijo, ceros.as_str());
    let b = une(a.as_str(), numero.as_str());
    let r = une(b.as_str(), sufijo);
    proof {
        let d = decimal_spec((inicio + n) as nat);
        if d.len() >= ancho {
            assert(relleno@ =~= Seq::<char>::empty());
        }
        assert(r@ =~= texto_bates_spec(prefijo@, sufijo@, digitos, empieza_en, n));
    }
    r
}

/// Dónde empieza cada trozo al dividir «cada `n` páginas»: 0, n, 2n…
/// mientras quede documento.
pub open spec fn cortes_cada_spec(cortes: Seq<u16>, total: u16, n: u16) -> bool {
    &&& (cortes.len() > 0 <==> total > 0)
    &&& cortes.len() > 0 ==> cortes[0] == 0
    &&& forall|k: int| 0 < k < cortes.len() ==> #[trigger] cortes[k] == cortes[k - 1] + n
    &&& forall|k: int| 0 <= k < cortes.len() ==> cortes[k] < total
    &&& cortes.len() > 0 ==> cortes.last() + n >= total
}

fn cortes_cada(total: u16, n: u16) -> (r: Vec<u16>)
    requires
        n >= 1,
    ensures
        cortes_cada_spec(r@, total, n),
{
    let mut r: Vec<u16> = Vec::new();
    let mut v: u32 = 0;
    while v < total as u32
        invariant
            n >= 1,
            v <= total + n,
            r@.len() == 0 <==> v == 0,
            r@.len() > 0 ==> r@.last() + n == v,
            r@.len() > 0 ==> r@[0] == 0,
            forall|k: int| 0 < k < r@.len() ==> #[trigger] r@[k] == r@[k - 1] + n,
            forall|k: int| 0 <= k < r@.len() ==> r@[k] < total,
        decreases total + n - v,
    {
        r.push(v as u16);
        v = v + n as u32;
    }
    r
}

/// Mensajes de la división.
pub open spec fn sin_marcadores() -> Seq<char> {
    "El documento no tiene marcadores de primer nivel por los que dividir"@
}

/// Dónde empieza cada trozo al dividir el documento de `total` páginas:
/// con `"cada"`, cada `cada` páginas (al menos una); con `"marcadores"`, en
/// cada página a la que apunta un marcador de primer nivel, de menor a
/// mayor y sin repetir, más la primera página si ningún marcador la abre.
pub fn cortes_de_division(total: u16, modo: &str, cada: Option<u16>, marcadores: &Vec<u16>) -> (r: Result<Vec<u16>, String>)
    ensures
        total == 0 ==> (r matches Err(m) && m@ == "El documento no tiene páginas"@),
        total > 0 && modo@ == "cada"@ ==> (r matches Ok(c) && cortes_cada_spec(c@, total,
            match cada { Some(n) => if n < 1 { 1 } else { n }, None => 1u16 })),
        total > 0 && modo@ == "marcadores"@ && marcadores.len() == 0 ==> (r matches Err(m) && m@ == sin_marcadores()),
        total > 0 && modo@ == "marcadores"@ && marcadores.len() > 0 ==> (r matches Ok(c)
            && creciente(c@) && c@[0] == 0
            && forall|x: u16| c@.contains(x) <==> marcadores@.contains(x) || x == 0),
        total > 0 && modo@ != "cada"@ && modo@ != "marcadores"@ ==> (r matches Err(m) && m@ == "Modo de división desconocido"@),
{
    if total == 0 {
        return Err(String::from_str("El documento no tiene páginas"));
    }
    proof {
        reveal_strlit("cada");
        reveal_strlit("marcadores");
        assert("cada"@ != "marcadores"@) by {
            assert("cada"@.len() == 4);
            assert("marcadores"@.len() == 10);
        }
    }
    if mismo_texto(modo, "cada") {
        let n: u16 = match cada { Some(n) => if n < 1 { 1 } else { n }, None => 1 };
        return Ok(cortes_cada(total, n));
    }
    if mismo_texto(modo, "marcadores") {
        let mut inicios = ordenados_sin_repetir(marcadores);
        if inicios.len() == 0 {
            assert(marcadores@.len() > 0 ==> marcadores@.contains(marcadores@[0]));
            return Err(String::from_str("El documento no tiene marcadores de primer nivel por los que dividir"));
        }
        assert(inicios@.contains(inicios@[0]));
        assert(marcadores@.contains(inicios@[0]));
        if inicios[0] != 0 {
            let ghost antes = inicios@;
            inicios.insert(0, 0);
            assert forall|a: int, b: int| 0 <= a < b < inicios@.len() implies inicios@[a] < inicios@[b] by {
                if a == 0 {
                    assert(inicios@[b] == antes[b - 1]);
                    assert(antes[0] <= antes[b - 1]);
                } else {
                    assert(inicios@[a] == antes[a - 1] && inicios@[b] == antes[b - 1]);
                }
            }
            assert forall|x: u16| inicios@.contains(x) <==> antes.contains(x) || x == 0 by {
                if inicios@.contains(x) && x != 0 {
                    let k = choose|k: int| 0 <= k < inicios@.len() && inicios@[k] == x;
                    assert(antes[k - 1] == x);
                }
                if antes.contains(x) {
                    let k = choose|k: int| 0 <= k < antes.len() && antes[k] == x;
                    assert(inicios@[k + 1] == x);
                }
                if x == 0 {
                    assert(inicios@[0] == 0);
                }
            }
        } else {
            assert forall|x: u16| inicios@.contains(x) <==> marcadores@.contains(x) || x == 0 by {
                if x == 0 {
                    assert(inicios@[0] == 0);
                }
            }
        }
        return Ok(inicios);
    }
    Err(String::from_str("Modo de división desconocido"))
}

/// Dónde acaba el trozo que empieza en el corte `n`: en el siguiente
/// corte, o al final del documento.
pub open spec fn fin_de_trozo(cortes: Seq<u16>, total: u16, n: int) -> u16 {
    if n + 1 < cortes.len() { cortes[n + 1] } else { total }
}

/// ¿Tiene páginas este trozo?
pub open spec fn trozo_con_paginas() -> spec_fn((u16, u16)) -> bool {
    |t: (u16, u16)| t.0 < t.1
}

/// Los trozos (primera página, página tras la última) que se escriben, uno
/// por corte, sin los vacíos.
pub open spec fn trozos_spec(cortes: Seq<u16>, total: u16) -> Seq<(u16, u16)> {
    Seq::new(cortes.len(), |n: int| (cortes[n], fin_de_trozo(cortes, total, n))).filter(trozo_con_paginas())
}

pub fn trozos(cortes: &Vec<u16>, total: u16) -> (r: Vec<(u16, u16)>)
    ensures
        r@ == trozos_spec(cortes@, total),
{
    let ghost todos = Seq::new(cortes@.len(), |n: int| (cortes@[n], fin_de_trozo(cortes@, total, n)));
    let mut r: Vec<(u16, u16)> = Vec::new();
    let mut n: usize = 0;
    while n < cortes.len()
        invariant
            n <= cortes.len(),
            todos == Seq::new(cortes@.len(), |k: int| (cortes@[k], fin_de_trozo(cortes@, total, k))),
            r@ == todos.take(n as int).filter(trozo_con_paginas()),
        decreases cortes.len() - n,
    {
        let inicio = cortes[n];
        let fin = if n + 1 < cortes.len() { cortes[n + 1] } else { total };
        proof {
            assert(todos.take(n + 1) =~= todos.take(n as int).push((inicio, fin)));
            todos.take(n as int).lemma_filter_push((inicio, fin), trozo_con_paginas());
        }
        if inicio < fin {
            r.push((inicio, fin));
        }
        n = n + 1;
    }
    assert(todos.take(cortes.len() as int) =~= todos);
    r
}

/// El rango de páginas de un trozo, para el motor PDF: `a-b`, desde 1.
pub fn rango_de_trozo(inicio: u16, fin: u16) -> (r: String)
    ensures
        r@ == decimal_spec((inicio + 1) as nat) + "-"@ + decimal_spec(fin as nat),
{
    let a = decimal((inicio as u64) + 1);
    let b = une(a.as_str(), "-");
    let c = decimal(fin as u64);
    une(b.as_str(), c.as_str())
}

/// El nombre del fichero del trozo `k`-ésimo (desde 0): `parte-N.pdf`.
pub fn nombre_de_parte(k: u16) -> (r: String)
    ensures
        r@ == "parte-"@ + decimal_spec((k + 1) as nat) + ".pdf"@,
{
    let n = decimal((k as u64) + 1);
    let a = une("parte-", n.as_str());
    une(a.as_str(), ".pdf")
}

/// El rango con todas las páginas de un documento de `n`: `1-n`.
pub fn rango_entero(n: u16) -> (r: String)
    ensures
        r@ == "1-"@ + decimal_spec(n as nat),
{
    let c = decimal(n as u64);
    une("1-", c.as_str())
}

/// Dónde se mete lo que se une al documento de `total` páginas: en `at`, o
/// al final si no se dice o se pasa.
pub fn destino_de_union(at: Option<u16>, total: u16) -> (r: u16)
    ensures
        r == match at { Some(a) => if a < total { a } else { total }, None => total },
{
    match at {
        Some(a) => if a < total { a } else { total },
        None => total,
    }
}

/// Las páginas pedidas, o ninguna si no se piden.
pub open spec fn lista_pedida(p: Option<Vec<u16>>) -> Seq<u16> {
    match p {
        Some(v) => v@,
        None => Seq::empty(),
    }
}

/// ¿Es la posición `k` la primera de `v` que se sale de un documento de
/// `total` páginas?
pub open spec fn primera_fuera_en(v: Seq<u16>, total: u16, k: int) -> bool {
    &&& 0 <= k < v.len()
    &&& v[k] >= total
    &&& forall|j: int| 0 <= j < k ==> v[j] < total
}

/// El rango de páginas que se trae del otro documento al reemplazar: las
/// pedidas (desde 1, separadas por comas) o, si no se piden, todas. Falla
/// si alguna no está en el otro documento (la primera, en el orden pedido).
pub fn rango_del_otro(otro_total: u16, pedidas: &Option<Vec<u16>>) -> (r: Result<String, String>)
    ensures
        lista_pedida(*pedidas).len() > 0 && r is Ok ==> (r matches Ok(s)
            && s@ == rango_spec(lista_pedida(*pedidas))
            && forall|k: int| 0 <= k < lista_pedida(*pedidas).len() ==> lista_pedida(*pedidas)[k] < otro_total),
        lista_pedida(*pedidas).len() > 0 && r is Err ==> (r matches Err(m)
            && exists|k: int| #[trigger] primera_fuera_en(lista_pedida(*pedidas), otro_total, k)
            && m@ == "El otro documento no tiene la página "@ + decimal_spec((lista_pedida(*pedidas)[k] + 1) as nat)),
        lista_pedida(*pedidas).len() > 0 && (forall|k: int| 0 <= k < lista_pedida(*pedidas).len()
            ==> lista_pedida(*pedidas)[k] < otro_total) ==> r is Ok,
        lista_pedida(*pedidas).len() == 0 ==> (r matches Ok(s) && s@ == "1-"@ + decimal_spec(otro_total as nat)),
{
    match pedidas {
        Some(v) => {
            if v.len() > 0 {
                let mut i: usize = 0;
                while i < v.len()
                    invariant
                        lista_pedida(*pedidas) == v@,
                        i <= v.len(),
                        forall|k: int| 0 <= k < i ==> v@[k] < otro_total,
                    decreases v.len() - i,
                {
                    if v[i] >= otro_total {
                        let n = decimal((v[i] as u64) + 1);
                        let m = une("El otro documento no tiene la página ", n.as_str());
                        assert(primera_fuera_en(v@, otro_total, i as int));
                        return Err(m);
                    }
                    i = i + 1;
                }
                return Ok(rango_de_paginas(v));
            }
            Ok(rango_entero(otro_total))
        },
        None => Ok(rango_entero(otro_total)),
    }
}

} // verus!

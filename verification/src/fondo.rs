//! El fondo de página que pone la aplicación: un Form XObject que se llama
//! `VitelaFondo` y se pinta desde el flujo de contenido con
//! `/VitelaFondo Do`. Quitarlo es borrar esas invocaciones del flujo.

use vstd::prelude::*;

verus! {

/// El nombre del objeto del fondo.
pub const NOMBRE: &'static str = "VitelaFondo";

/// La invocación que se busca en el flujo: `/VitelaFondo`.
pub open spec fn aguja() -> Seq<u8> {
    seq![47u8, 86u8, 105u8, 116u8, 101u8, 108u8, 97u8, 70u8, 111u8, 110u8, 100u8, 111u8]
}

/// ¿Es un blanco de ASCII (`u8::is_ascii_whitespace`): espacio, tabulador,
/// salto de línea, salto de página o retorno de carro?
pub open spec fn es_blanco(b: u8) -> bool {
    b == 32 || b == 9 || b == 10 || b == 12 || b == 13
}

/// La primera posición desde `k` que no es un blanco, o el final.
pub open spec fn tras_blancos(s: Seq<u8>, k: int) -> int
    decreases s.len() - k,
{
    if k < 0 || k >= s.len() {
        k
    } else if es_blanco(s[k]) {
        tras_blancos(s, k + 1)
    } else {
        k
    }
}

/// `n` espacios.
pub open spec fn espacios(n: nat) -> Seq<u8> {
    Seq::new(n, |_i: int| 32u8)
}

/// El flujo desde `i`, con cada `/VitelaFondo` seguido de blancos y `Do`
/// cambiado por tantos espacios como ocupaba (para no mover nada de lo que
/// viene detrás), y si se ha cambiado alguno.
pub open spec fn sin_invocacion_desde(s: Seq<u8>, i: int) -> (Seq<u8>, bool)
    decreases s.len() - i,
{
    if i < 0 || i + aguja().len() > s.len() {
        (s.subrange(if i < 0 { 0 } else { i }, s.len() as int), false)
    } else {
        let j = tras_blancos(s, i + aguja().len());
        if s.subrange(i, i + aguja().len()) == aguja() && j + 2 <= s.len() && s[j] == 68u8 && s[j + 1] == 111u8 {
            proof {
                tras_blancos_acotado(s, i + aguja().len());
            }
            let resto = sin_invocacion_desde(s, j + 2);
            (espacios((j + 2 - i) as nat) + resto.0, true)
        } else {
            let resto = sin_invocacion_desde(s, i + 1);
            (seq![s[i]] + resto.0, resto.1)
        }
    }
}

pub proof fn tras_blancos_acotado(s: Seq<u8>, k: int)
    requires
        0 <= k <= s.len(),
    ensures
        k <= tras_blancos(s, k) <= s.len(),
        forall|m: int| k <= m < tras_blancos(s, k) ==> es_blanco(s[m]),
        tras_blancos(s, k) < s.len() ==> !es_blanco(s[tras_blancos(s, k)]),
    decreases s.len() - k,
{
    if k < s.len() && es_blanco(s[k]) {
        tras_blancos_acotado(s, k + 1);
    }
}

/// Quitar el fondo no mueve nada del flujo: lo que queda mide lo mismo,
/// porque cada invocación se cambia por tantos espacios como ocupaba.
pub proof fn ley_misma_longitud(s: Seq<u8>, i: int)
    requires
        0 <= i <= s.len(),
    ensures
        sin_invocacion_desde(s, i).0.len() == s.len() - i,
    decreases s.len() - i,
{
    if i + aguja().len() <= s.len() {
        let j = tras_blancos(s, i + aguja().len());
        tras_blancos_acotado(s, i + aguja().len());
        if s.subrange(i, i + aguja().len()) == aguja() && j + 2 <= s.len() && s[j] == 68u8 && s[j + 1] == 111u8 {
            ley_misma_longitud(s, j + 2);
        } else {
            ley_misma_longitud(s, i + 1);
        }
    }
}

/// El flujo de contenido sin las invocaciones del fondo, cada una cambiada
/// por espacios; `None` si no había ninguna.
pub fn sin_invocacion(contenido: &[u8]) -> (r: Option<Vec<u8>>)
    ensures
        match r {
            Some(v) => sin_invocacion_desde(contenido@, 0).1 && v@ == sin_invocacion_desde(contenido@, 0).0,
            None => !sin_invocacion_desde(contenido@, 0).1,
        },
{
    let n = contenido.len();
    let aguja_v: Vec<u8> = vec![47u8, 86u8, 105u8, 116u8, 101u8, 108u8, 97u8, 70u8, 111u8, 110u8, 100u8, 111u8];
    assert(aguja_v@ =~= aguja());
    let l = aguja_v.len();
    let mut out: Vec<u8> = Vec::new();
    let mut tocado = false;
    let mut i: usize = 0;
    while l <= n - i
        invariant
            n == contenido@.len(),
            aguja_v@ == aguja(),
            l == aguja_v.len(),
            l == 12,
            i <= n,
            out@ + sin_invocacion_desde(contenido@, i as int).0 == sin_invocacion_desde(contenido@, 0).0,
            (tocado || sin_invocacion_desde(contenido@, i as int).1) == sin_invocacion_desde(contenido@, 0).1,
        decreases n - i,
    {
        let ghost s = contenido@;
        let mut igual = true;
        let mut k: usize = 0;
        while k < l
            invariant
                n == contenido@.len(),
                s == contenido@,
                aguja_v@ == aguja(),
                l == aguja_v.len(),
                i + l <= n,
                k <= l,
                igual == forall|m: int| 0 <= m < k ==> s[i + m] == aguja()[m],
            decreases l - k,
        {
            if contenido[i + k] != aguja_v[k] {
                igual = false;
            }
            k = k + 1;
        }
        proof {
            if igual {
                assert(s.subrange(i as int, i + l) =~= aguja());
            } else {
                let m = choose|m: int| 0 <= m < l && s[i + m] != aguja()[m];
                assert(s.subrange(i as int, i + l)[m] != aguja()[m]);
            }
        }
        let mut cambiado = false;
        if igual {
            let mut j: usize = i + l;
            while j < n && (contenido[j] == 32 || contenido[j] == 9 || contenido[j] == 10 || contenido[j] == 12 || contenido[j] == 13)
                invariant
                    n == contenido@.len(),
                    s == contenido@,
                    i + l <= j <= n,
                    tras_blancos(s, (i + l) as int) == tras_blancos(s, j as int),
                decreases n - j,
            {
                j = j + 1;
            }
            assert(tras_blancos(s, j as int) == j);
            if 2 <= n - j && contenido[j] == 68 && contenido[j + 1] == 111 {
                let ghost out0 = out@;
                let mut b: usize = i;
                while b < j + 2
                    invariant
                        i <= b <= j + 2,
                        j + 2 <= n,
                        out@ == out0 + espacios((b - i) as nat),
                    decreases j + 2 - b,
                {
                    out.push(32u8);
                    assert(out@ =~= out0 + espacios((b + 1 - i) as nat));
                    b = b + 1;
                }
                proof {
                    let resto = sin_invocacion_desde(s, j + 2);
                    assert(sin_invocacion_desde(s, i as int).0 == espacios((j + 2 - i) as nat) + resto.0);
                    assert(out@ + resto.0 =~= out0 + (espacios((j + 2 - i) as nat) + resto.0));
                }
                tocado = true;
                i = j + 2;
                cambiado = true;
            }
        }
        if !cambiado {
            let ghost out0 = out@;
            proof {
                let resto = sin_invocacion_desde(s, i + 1);
                assert(sin_invocacion_desde(s, i as int).0 == seq![s[i as int]] + resto.0);
            }
            out.push(contenido[i]);
            proof {
                let resto = sin_invocacion_desde(s, i + 1);
                assert(out@ + resto.0 =~= out0 + (seq![s[i as int]] + resto.0));
            }
            i = i + 1;
        }
    }
    proof {
        assert(sin_invocacion_desde(contenido@, i as int).0 == contenido@.subrange(i as int, n as int));
    }
    let mut k: usize = i;
    while k < n
        invariant
            n == contenido@.len(),
            i <= k <= n,
            out@ + contenido@.subrange(k as int, n as int) == sin_invocacion_desde(contenido@, 0).0,
        decreases n - k,
    {
        let ghost antes = out@;
        out.push(contenido[k]);
        assert(contenido@.subrange(k as int, n as int) =~= seq![contenido@[k as int]] + contenido@.subrange(k + 1, n as int));
        assert(out@ + contenido@.subrange(k + 1, n as int) =~= antes + contenido@.subrange(k as int, n as int));
        k = k + 1;
    }
    assert(out@ =~= out@ + contenido@.subrange(n as int, n as int));
    if tocado { Some(out) } else { None }
}

} // verus!

//! El puente de desarrollo: la interfaz servida en un navegador normal le
//! pide por HTTP lo que en la aplicación pide por IPC. Aquí está lo que el
//! puente decide: en qué puerto escucha, qué ruta se ha pedido y la cola de
//! respuestas preparadas para los diálogos del sistema, que en el navegador
//! no existen.

use vstd::prelude::*;
use crate::cadenas::{caracteres, empieza, empieza_por, mismo_texto, une};

verus! {

/// El puerto si no se dice otro.
pub const PUERTO_POR_DEFECTO: u16 = 1422;

/// ¿Es una cifra ASCII?
pub open spec fn es_cifra(c: char) -> bool {
    '0' <= c <= '9'
}

/// El valor de una cifra.
pub open spec fn valor_de_cifra(c: char) -> nat {
    ((c as u32) - ('0' as u32)) as nat
}

/// ¿Son todo cifras?
pub open spec fn todo_cifras(s: Seq<char>) -> bool {
    forall|i: int| 0 <= i < s.len() ==> es_cifra(#[trigger] s[i])
}

/// El número que escriben las cifras, en decimal.
pub open spec fn valor_decimal(s: Seq<char>) -> nat
    decreases s.len(),
{
    if s.len() == 0 { 0 } else { valor_decimal(s.drop_last()) * 10 + valor_de_cifra(s.last()) }
}

/// Las cifras de un número sin signo escrito como lo lee `u16::from_str`:
/// con un `+` delante como mucho.
pub open spec fn cifras_de_numero(s: Seq<char>) -> Seq<char> {
    if s.len() > 0 && s[0] == '+' { s.drop_first() } else { s }
}

/// El número de 16 bits que escribe el texto, si es uno (`u16::from_str`):
/// cifras, con un `+` delante como mucho, y que quepa.
pub open spec fn numero_u16(s: Seq<char>) -> Option<u16> {
    let c = cifras_de_numero(s);
    if c.len() > 0 && todo_cifras(c) && valor_decimal(c) <= 65535 {
        Some(valor_decimal(c) as u16)
    } else {
        None
    }
}

proof fn valor_crece(s: Seq<char>, k: int)
    requires
        0 <= k <= s.len(),
    ensures
        valor_decimal(s.take(k)) <= valor_decimal(s),
    decreases s.len() - k,
{
    if k < s.len() {
        valor_crece(s, k + 1);
        assert(s.take(k + 1).drop_last() =~= s.take(k));
    } else {
        assert(s.take(k) =~= s);
    }
}

/// El número de 16 bits que escribe el texto, si es uno.
pub fn lee_u16(s: &str) -> (r: Option<u16>)
    ensures
        r == numero_u16(s@),
{
    let v = caracteres(s);
    let n = v.len();
    let mut i: usize = 0;
    if n > 0 && v[0] == '+' {
        i = 1;
    }
    let ghost c = cifras_de_numero(s@);
    assert(c =~= s@.skip(i as int));
    if i == n {
        return None;
    }
    let inicio = i;
    let mut acc: u32 = 0;
    while i < n
        invariant
            v@ == s@,
            n == v.len(),
            inicio <= i <= n,
            c == s@.skip(inicio as int),
            c == cifras_de_numero(s@),
            todo_cifras(c.take(i - inicio)),
            acc as nat == valor_decimal(c.take(i - inicio)),
            acc <= 65535,
        decreases n - i,
    {
        let ch = v[i];
        if !('0' <= ch && ch <= '9') {
            assert(!es_cifra(c[i - inicio]));
            return None;
        }
        let d = (ch as u32) - ('0' as u32);
        proof {
            assert(c.take(i + 1 - inicio).drop_last() =~= c.take(i - inicio));
            assert(c.take(i + 1 - inicio).last() == ch);
        }
        acc = acc * 10 + d;
        if acc > 65535 {
            proof {
                valor_crece(c, i + 1 - inicio);
            }
            return None;
        }
        assert(todo_cifras(c.take(i + 1 - inicio)));
        i = i + 1;
    }
    assert(c.take(n - inicio) =~= c);
    Some(acc as u16)
}

/// El puerto del puente: el que diga la variable de entorno, si es un
/// número de 16 bits; si no, el de por defecto.
pub fn puerto_de(valor: Option<&str>) -> (r: u16)
    ensures
        r == match valor {
            Some(v) => match numero_u16(v@) { Some(p) => p, None => PUERTO_POR_DEFECTO },
            None => PUERTO_POR_DEFECTO,
        },
{
    match valor {
        Some(v) => match lee_u16(v) {
            Some(p) => p,
            None => PUERTO_POR_DEFECTO,
        },
        None => PUERTO_POR_DEFECTO,
    }
}

/// Lo que se pide al puente.
pub enum Ruta {
    /// `/salud`: ¿está vivo?
    Salud,
    /// `/qa/dialogo`: encolar la respuesta del siguiente diálogo.
    Dialogo,
    /// `/qa/dialogo/siguiente`: la siguiente respuesta encolada.
    SiguienteDialogo,
    /// `/qa/fixture`: un PDF de prueba.
    Fixture,
    /// `/invoke/<comando>`: un comando de la aplicación.
    Invocar(String),
    /// Cualquier otra cosa.
    Desconocida,
}

/// Qué ruta se ha pedido.
pub fn ruta_de(url: &str) -> (r: Ruta)
    ensures
        url@ == "/salud"@ ==> r is Salud,
        url@ == "/qa/dialogo"@ ==> r is Dialogo,
        url@ == "/qa/dialogo/siguiente"@ ==> r is SiguienteDialogo,
        url@ == "/qa/fixture"@ ==> r is Fixture,
        url@ != "/salud"@ && url@ != "/qa/dialogo"@ && url@ != "/qa/dialogo/siguiente"@ && url@ != "/qa/fixture"@
            ==> (if empieza_por(url@, "/invoke/"@) {
                r matches Ruta::Invocar(c) && c@ == url@.skip("/invoke/"@.len() as int)
            } else {
                r is Desconocida
            }),
{
    proof {
        reveal_strlit("/salud");
        reveal_strlit("/qa/dialogo");
        reveal_strlit("/qa/dialogo/siguiente");
        reveal_strlit("/qa/fixture");
        reveal_strlit("/invoke/");
        assert("/salud"@.len() == 6);
        assert("/qa/dialogo"@.len() == 11);
        assert("/qa/dialogo/siguiente"@.len() == 21);
        assert("/qa/fixture"@.len() == 11);
        assert("/qa/dialogo"@[4] != "/qa/fixture"@[4]);
    }
    if mismo_texto(url, "/salud") {
        Ruta::Salud
    } else if mismo_texto(url, "/qa/dialogo") {
        Ruta::Dialogo
    } else if mismo_texto(url, "/qa/dialogo/siguiente") {
        Ruta::SiguienteDialogo
    } else if mismo_texto(url, "/qa/fixture") {
        Ruta::Fixture
    } else if empieza(url, "/invoke/") {
        let v = caracteres(url);
        let mut resto: Vec<char> = Vec::new();
        let mut i: usize = 8;
        assert("/invoke/"@.len() == 8);
        while i < v.len()
            invariant
                v@ == url@,
                8 <= i <= v.len(),
                resto@ == url@.subrange(8, i as int),
            decreases v.len() - i,
        {
            resto.push(v[i]);
            assert(resto@ =~= url@.subrange(8, i + 1));
            i = i + 1;
        }
        assert(url@.subrange(8, url@.len() as int) =~= url@.skip(8));
        Ruta::Invocar(crate::cadenas::cadena_de(&resto))
    } else {
        Ruta::Desconocida
    }
}

/// El error de una ruta que el puente no conoce.
pub fn ruta_desconocida(url: &str) -> (r: String)
    ensures
        r@ == "Ruta desconocida: "@ + url@,
{
    une("Ruta desconocida: ", url)
}

/// Las respuestas preparadas para los diálogos del sistema, cada una en
/// JSON (`null` es que el usuario canceló), en el orden en que llegaron.
pub struct ColaDeDialogos {
    pub pendientes: Vec<String>,
}

impl ColaDeDialogos {
    /// Sin nada preparado.
    pub fn nueva() -> (r: ColaDeDialogos)
        ensures
            r.pendientes@.len() == 0,
    {
        ColaDeDialogos { pendientes: Vec::new() }
    }

    /// Prepara la respuesta del siguiente diálogo, detrás de las que ya
    /// había. Devuelve cuántas quedan pendientes.
    pub fn encola(&mut self, valor: String) -> (r: usize)
        requires
            old(self).pendientes.len() < usize::MAX,
        ensures
            final(self).pendientes@ == old(self).pendientes@.push(valor),
            r == final(self).pendientes.len(),
    {
        self.pendientes.push(valor);
        self.pendientes.len()
    }

    /// La respuesta del siguiente diálogo: la más antigua de las que
    /// esperan, que deja de esperar; `None` si no hay ninguna.
    pub fn siguiente(&mut self) -> (r: Option<String>)
        ensures
            old(self).pendientes@.len() == 0 ==> r is None && final(self).pendientes@ == old(self).pendientes@,
            old(self).pendientes@.len() > 0 ==> r == Some(old(self).pendientes@[0])
                && final(self).pendientes@ == old(self).pendientes@.drop_first(),
    {
        if self.pendientes.len() == 0 {
            None
        } else {
            let v = self.pendientes.remove(0);
            assert(self.pendientes@ =~= old(self).pendientes@.drop_first());
            Some(v)
        }
    }
}

} // verus!

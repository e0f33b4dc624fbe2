//! Crear un campo de formulario: lo que se decide antes de escribirlo en el
//! documento. Qué se rechaza y en qué orden, qué nombre lleva (el primero
//! libre de `nombre`, `nombre-2`, `nombre-3`…), de qué grupo de radios
//! cuelga si el grupo ya existe, qué banderas `/Ff` lleva, qué opciones
//! tiene y qué valor y estado salen de su valor por defecto.
//!
//! Quien llama mide el área (el campo tiene que medir al menos 8 puntos de
//! ancho y de alto), cuenta las páginas y recoge del documento los nombres
//! ya usados y los grupos de radios que hay; con el plan escribe los
//! objetos.

use vstd::prelude::*;
use crate::cadenas::{mismo_texto, recorta, recortado, une};
use crate::campos::{nombres, primer_libre, primer_nombre_libre, Referencia};

verus! {

/// `/Ff` bit 1: solo lectura.
pub const SOLO_LECTURA: u32 = 1;
/// `/Ff` bit 2: obligatorio.
pub const OBLIGATORIO: u32 = 2;
/// `/Ff` bit 16: botón de radio.
pub const RADIO: u32 = 32768;
/// `/Ff` bit 18: desplegable (sin él, lista).
pub const COMBO: u32 = 131072;

/// Las clases de campo que se pueden crear.
#[derive(PartialEq, Eq, Structural, Clone, Copy, Debug)]
pub enum TipoCampo {
    /// `text`
    Texto,
    /// `checkbox`
    Casilla,
    /// `radio`
    Radio,
    /// `combo`
    Desplegable,
    /// `list`
    Lista,
}

/// Las propiedades que se ponen al crear un campo: texto de ayuda (`/TU`),
/// obligatorio y solo lectura (bits de `/Ff`), valor por defecto (`/DV`, y
/// `/V` para que se vea) y sitio en el orden de tabulación.
pub struct PropsCampo {
    pub tooltip: Option<String>,
    pub obligatorio: bool,
    pub solo_lectura: bool,
    pub valor_defecto: Option<String>,
    pub orden_tab: Option<u16>,
}

/// Lo decidido para un campo nuevo.
pub struct PlanDeCampo {
    pub tipo: TipoCampo,
    /// El `/T` del campo (en un radio, el `/T` es el del grupo).
    pub nombre: String,
    /// El grupo de un radio, sin espacios a los lados.
    pub grupo: String,
    /// El valor de la opción de un radio (vacío en los demás).
    pub valor_exportado: String,
    /// El campo del grupo de radios ya existente del que cuelga la opción.
    pub padre: Option<Referencia>,
    /// Las opciones, sin espacios a los lados y sin las vacías.
    pub opciones: Vec<String>,
    /// El `/Ff` del campo (en un radio, el del grupo cuando se crea).
    pub banderas: u32,
    /// El `/TU`, si hay texto de ayuda que no sea solo espacios.
    pub ayuda: Option<String>,
    /// ¿Se escribe `/DV`? (texto y casilla: si se dio valor por defecto).
    pub con_defecto: bool,
    /// La casilla marcada o la opción de radio elegida.
    pub marcado: bool,
    /// El `/V` de un texto o de una lista (vacío en los demás).
    pub valor: String,
    /// El `/I` de una lista: la posición del valor entre las opciones.
    pub indice: Option<usize>,
}

pub open spec fn texto_de(o: Option<String>) -> Option<Seq<char>> {
    match o {
        Some(s) => Some(s@),
        None => None,
    }
}

pub open spec fn con_texto() -> spec_fn(Seq<char>) -> bool {
    |s: Seq<char>| s.len() > 0
}

pub open spec fn recortadas(v: Seq<Seq<char>>) -> Seq<Seq<char>> {
    v.map_values(|s: Seq<char>| recortado(s))
}

/// Las opciones pedidas sin espacios a los lados y sin las vacías.
pub open spec fn opciones_limpias(o: Option<Vec<String>>) -> Seq<Seq<char>> {
    match o {
        Some(v) => recortadas(nombres(v@)).filter(con_texto()),
        None => Seq::empty(),
    }
}

/// El grupo pedido sin espacios a los lados (vacío si no hay).
pub open spec fn grupo_limpio(g: Option<Seq<char>>) -> Seq<char> {
    match g {
        Some(x) => recortado(x),
        None => Seq::empty(),
    }
}

/// El valor de una opción de radio: el pedido sin espacios a los lados, o
/// el nombre del campo si no hay o es vacío.
pub open spec fn exportado_de(e: Option<Seq<char>>, n: Seq<char>) -> Seq<char> {
    match e {
        Some(v) => if recortado(v).len() > 0 { recortado(v) } else { n },
        None => n,
    }
}

pub open spec fn conocido(t: Seq<char>) -> bool {
    t == "text"@ || t == "checkbox"@ || t == "radio"@ || t == "combo"@ || t == "list"@
}

/// Por qué no se crea el campo, en el orden en que se mira; nada si se
/// crea. `n` es el nombre sin espacios a los lados.
pub open spec fn fallo_de_campo(n: Seq<char>, t: Seq<char>, pagina: int, paginas: int, area: bool, g: Seq<char>,
    ops: Seq<Seq<char>>, ex: Seq<char>) -> Option<Seq<char>> {
    if n.len() == 0 {
        Some("El campo necesita un nombre"@)
    } else if !area {
        Some("El área del campo es demasiado pequeña"@)
    } else if t == "radio"@ && g.len() == 0 {
        Some("Un botón de radio necesita el nombre de su grupo"@)
    } else if (t == "combo"@ || t == "list"@) && ops.len() == 0 {
        Some("Un desplegable necesita al menos una opción"@)
    } else if pagina >= paginas {
        Some("Página fuera de rango"@)
    } else if !conocido(t) {
        Some("Tipo de campo desconocido: "@ + t)
    } else if t == "radio"@ && ex == "Off"@ {
        Some("«Off» no puede ser el valor de una opción"@)
    } else {
        None
    }
}

pub open spec fn tipo_de(t: Seq<char>) -> TipoCampo {
    if t == "text"@ {
        TipoCampo::Texto
    } else if t == "checkbox"@ {
        TipoCampo::Casilla
    } else if t == "radio"@ {
        TipoCampo::Radio
    } else if t == "combo"@ {
        TipoCampo::Desplegable
    } else {
        TipoCampo::Lista
    }
}

/// Las banderas `/Ff`: obligatorio y solo lectura, más la de desplegable o
/// la de radio según la clase.
pub open spec fn banderas_de(t: Seq<char>, obligatorio: bool, solo_lectura: bool) -> int {
    (if obligatorio { OBLIGATORIO as int } else { 0 }) + (if solo_lectura { SOLO_LECTURA as int } else { 0 })
        + (if t == "combo"@ { COMBO as int } else { 0 }) + (if t == "radio"@ { RADIO as int } else { 0 })
}

/// Los valores por defecto que marcan una casilla.
pub open spec fn es_si(v: Seq<char>) -> bool {
    v == "Yes"@ || v == "on"@ || v == "sí"@ || v == "si"@ || v == "true"@
}

pub open spec fn ayuda_de(t: Option<Seq<char>>) -> Option<Seq<char>> {
    match t {
        Some(x) => if recortado(x).len() > 0 { Some(x) } else { None },
        None => None,
    }
}

pub open spec fn radios_vistos(gs: Seq<(String, Referencia)>) -> Seq<(Seq<char>, Referencia)> {
    gs.map_values(|x: (String, Referencia)| (x.0@, x.1))
}

/// El primer grupo de radios que se llama `g`.
pub open spec fn grupo_llamado(gs: Seq<(Seq<char>, Referencia)>, g: Seq<char>) -> Option<Referencia>
    decreases gs.len(),
{
    if gs.len() == 0 {
        None
    } else if gs[0].0 == g {
        Some(gs[0].1)
    } else {
        grupo_llamado(gs.drop_first(), g)
    }
}

/// ¿Sale marcada? La casilla, si su valor por defecto es un «sí»; la
/// opción de radio, si su valor por defecto es el de la opción.
pub open spec fn marcado_de(t: Seq<char>, vd: Option<Seq<char>>, ex: Seq<char>) -> bool {
    if t == "checkbox"@ {
        vd matches Some(v) && es_si(v)
    } else if t == "radio"@ {
        vd matches Some(v) && v == ex
    } else {
        false
    }
}

/// El `/V`: en un texto, el valor por defecto; en una lista, el valor por
/// defecto si es una de las opciones; vacío en lo demás.
pub open spec fn valor_de(t: Seq<char>, vd: Option<Seq<char>>, ops: Seq<Seq<char>>) -> Seq<char> {
    if t == "text"@ {
        match vd {
            Some(v) => v,
            None => Seq::empty(),
        }
    } else if t == "combo"@ || t == "list"@ {
        match vd {
            Some(v) => if ops.contains(v) { v } else { Seq::empty() },
            None => Seq::empty(),
        }
    } else {
        Seq::empty()
    }
}

/// El plan que corresponde a lo pedido.
pub open spec fn plan_correcto(p: PlanDeCampo, n: Seq<char>, t: Seq<char>, g: Seq<char>, ops: Seq<Seq<char>>,
    ex: Seq<char>, props: PropsCampo, usados: Seq<Seq<char>>, radios: Seq<(Seq<char>, Referencia)>) -> bool {
    &&& p.tipo == tipo_de(t)
    &&& primer_libre(p.nombre@, n, "-"@, usados)
    &&& p.grupo@ == g
    &&& nombres(p.opciones@) == ops
    &&& p.banderas == banderas_de(t, props.obligatorio, props.solo_lectura)
    &&& texto_de(p.ayuda) == ayuda_de(texto_de(props.tooltip))
    &&& p.con_defecto == props.valor_defecto is Some
    &&& p.valor_exportado@ == (if t == "radio"@ { ex } else { Seq::empty() })
    &&& p.padre == (if t == "radio"@ { grupo_llamado(radios, g) } else { None })
    &&& p.marcado == marcado_de(t, texto_de(props.valor_defecto), ex)
    &&& p.valor@ == valor_de(t, texto_de(props.valor_defecto), ops)
    &&& if (t == "combo"@ || t == "list"@) && p.valor@.len() > 0 {
        p.indice matches Some(i) && i < ops.len() && ops[i as int] == p.valor@
            && forall|j: int| 0 <= j < i ==> ops[j] != p.valor@
    } else {
        p.indice is None
    }
}

/// Cuatro bits distintos sumados: cada uno está en la suma justo cuando
/// se sumó.
proof fn bits_sumados(x: u32, y: u32, z: u32, w: u32)
    by (bit_vector)
    requires
        x == 0 || x == 2,
        y == 0 || y == 1,
        z == 0 || z == 131072,
        w == 0 || w == 32768,
    ensures
        ((x + y + z + w) as u32 & 2u32 != 0) == (x == 2),
        ((x + y + z + w) as u32 & 1u32 != 0) == (y == 1),
        ((x + y + z + w) as u32 & 131072u32 != 0) == (z == 131072),
        ((x + y + z + w) as u32 & 32768u32 != 0) == (w == 32768),
{
}

/// **Las banderas dicen lo que se pidió, sea cual sea la clase de campo**:
/// el bit de obligatorio está puesto justo cuando se pidió obligatorio, el
/// de solo lectura justo cuando se pidió solo lectura, el de desplegable
/// justo en un `combo` y el de radio justo en un `radio`.
pub proof fn ley_banderas_del_plan(p: PlanDeCampo, n: Seq<char>, t: Seq<char>, g: Seq<char>, ops: Seq<Seq<char>>,
    ex: Seq<char>, props: PropsCampo, usados: Seq<Seq<char>>, radios: Seq<(Seq<char>, Referencia)>)
    requires
        plan_correcto(p, n, t, g, ops, ex, props, usados, radios),
    ensures
        (p.banderas & OBLIGATORIO != 0) <==> props.obligatorio,
        (p.banderas & SOLO_LECTURA != 0) <==> props.solo_lectura,
        (p.banderas & COMBO != 0) <==> t == "combo"@,
        (p.banderas & RADIO != 0) <==> t == "radio"@,
{
    let x: u32 = if props.obligatorio { 2 } else { 0 };
    let y: u32 = if props.solo_lectura { 1 } else { 0 };
    let z: u32 = if t == "combo"@ { 131072 } else { 0 };
    let w: u32 = if t == "radio"@ { 32768 } else { 0 };
    assert(p.banderas == (x + y + z + w) as u32);
    bits_sumados(x, y, z, w);
}

fn copia_nombres(v: &Vec<String>) -> (r: Vec<String>)
    ensures
        nombres(r@) == nombres(v@),
{
    let mut r: Vec<String> = Vec::new();
    let mut i: usize = 0;
    while i < v.len()
        invariant
            i <= v.len(),
            nombres(r@) == nombres(v@).take(i as int),
        decreases v.len() - i,
    {
        let ghost antes = r@;
        r.push(v[i].clone());
        assert(nombres(r@) =~= nombres(antes).push(v@[i as int]@));
        assert(nombres(v@).take(i + 1) =~= nombres(v@).take(i as int).push(v@[i as int]@));
        i = i + 1;
    }
    assert(nombres(v@).take(v.len() as int) =~= nombres(v@));
    r
}

fn limpia_opciones(o: &Option<Vec<String>>) -> (r: Vec<String>)
    ensures
        nombres(r@) == opciones_limpias(*o),
{
    let mut r: Vec<String> = Vec::new();
    match o {
        None => {
            assert(nombres(r@) =~= Seq::<Seq<char>>::empty());
        },
        Some(v) => {
            let ghost x = recortadas(nombres(v@));
            let mut i: usize = 0;
            while i < v.len()
                invariant
                    x == recortadas(nombres(v@)),
                    i <= v.len(),
                    nombres(r@) == x.take(i as int).filter(con_texto()),
                decreases v.len() - i,
            {
                let t = recorta(v[i].as_str());
                proof {
                    assert(x.take(i + 1) =~= x.take(i as int).push(t@));
                    x.take(i as int).lemma_filter_push(t@, con_texto());
                }
                if !t.as_str().is_empty() {
                    let ghost antes = r@;
                    r.push(t);
                    assert(nombres(r@) =~= nombres(antes).push(x[i as int]));
                }
                i = i + 1;
            }
            assert(x.take(v.len() as int) =~= x);
        },
    }
    r
}

fn busca_grupo(radios: &Vec<(String, Referencia)>, g: &str) -> (r: Option<Referencia>)
    ensures
        r == grupo_llamado(radios_vistos(radios@), g@),
{
    let ghost a = radios_vistos(radios@);
    let mut i: usize = 0;
    assert(a.skip(0) =~= a);
    while i < radios.len()
        invariant
            a == radios_vistos(radios@),
            i <= radios.len(),
            grupo_llamado(a, g@) == grupo_llamado(a.skip(i as int), g@),
        decreases radios.len() - i,
    {
        assert(a.skip(i as int)[0] == a[i as int]);
        if mismo_texto(radios[i].0.as_str(), g) {
            return Some(radios[i].1);
        }
        assert(a.skip(i as int).drop_first() =~= a.skip(i + 1));
        i = i + 1;
    }
    None
}

fn posicion(ops: &Vec<String>, v: &str) -> (r: Option<usize>)
    ensures
        match r {
            Some(i) => i < ops.len() && nombres(ops@)[i as int] == v@
                && forall|j: int| 0 <= j < i ==> nombres(ops@)[j] != v@,
            None => !nombres(ops@).contains(v@),
        },
{
    let mut i: usize = 0;
    while i < ops.len()
        invariant
            i <= ops.len(),
            forall|j: int| 0 <= j < i ==> nombres(ops@)[j] != v@,
        decreases ops.len() - i,
    {
        if mismo_texto(ops[i].as_str(), v) {
            return Some(i);
        }
        i = i + 1;
    }
    None
}

fn es_si_exec(v: &str) -> (r: bool)
    ensures
        r == es_si(v@),
{
    mismo_texto(v, "Yes") || mismo_texto(v, "on") || mismo_texto(v, "sí") || mismo_texto(v, "si")
        || mismo_texto(v, "true")
}

/// Un objeto del documento, tal como lo mira quien crea un campo: su
/// número, su `/T` si es una cadena, si su `/FT` es `/Btn` y su `/Ff` (0 si
/// no lo tiene).
pub struct FichaDeObjeto {
    pub id: Referencia,
    pub nombre: Option<String>,
    pub boton: bool,
    pub banderas: i64,
}

/// ¿Es el campo de un grupo de radios? Un botón con el bit de radio y con
/// nombre.
pub open spec fn es_grupo_de_radios(f: FichaDeObjeto) -> bool {
    f.boton && (f.banderas & (RADIO as i64)) != 0 && f.nombre is Some
}

/// Los nombres que ya hay en el documento, en el orden de los objetos.
pub open spec fn nombres_en(s: Seq<FichaDeObjeto>) -> Seq<Seq<char>>
    decreases s.len(),
{
    if s.len() == 0 {
        Seq::empty()
    } else {
        match s.last().nombre {
            Some(n) => nombres_en(s.drop_last()).push(n@),
            None => nombres_en(s.drop_last()),
        }
    }
}

/// Los grupos de radios del documento, con su nombre, en el orden de los
/// objetos.
pub open spec fn grupos_en(s: Seq<FichaDeObjeto>) -> Seq<(Seq<char>, Referencia)>
    decreases s.len(),
{
    if s.len() == 0 {
        Seq::empty()
    } else if es_grupo_de_radios(s.last()) {
        grupos_en(s.drop_last()).push((s.last().nombre->Some_0@, s.last().id))
    } else {
        grupos_en(s.drop_last())
    }
}

/// **Los nombres ya usados** en el documento: el `/T` de cada objeto que
/// lo tiene, para que el campo nuevo no repita ninguno.
pub fn nombres_usados(objetos: &Vec<FichaDeObjeto>) -> (r: Vec<String>)
    ensures
        nombres(r@) == nombres_en(objetos@),
{
    let mut r: Vec<String> = Vec::new();
    let mut i: usize = 0;
    while i < objetos.len()
        invariant
            i <= objetos.len(),
            nombres(r@) == nombres_en(objetos@.take(i as int)),
        decreases objetos.len() - i,
    {
        assert(objetos@.take(i + 1).drop_last() =~= objetos@.take(i as int));
        match &objetos[i].nombre {
            Some(n) => {
                let ghost antes = r@;
                r.push(n.clone());
                assert(nombres(r@) =~= nombres(antes).push(n@));
            },
            None => {},
        }
        i = i + 1;
    }
    assert(objetos@.take(objetos.len() as int) =~= objetos@);
    r
}

/// **Los grupos de radios** del documento (botones con el bit de radio),
/// con su nombre, en el orden de los objetos: de ellos cuelga una opción
/// nueva de un grupo que ya existe.
pub fn grupos_de_radios(objetos: &Vec<FichaDeObjeto>) -> (r: Vec<(String, Referencia)>)
    ensures
        radios_vistos(r@) == grupos_en(objetos@),
{
    let mut r: Vec<(String, Referencia)> = Vec::new();
    let mut i: usize = 0;
    while i < objetos.len()
        invariant
            i <= objetos.len(),
            radios_vistos(r@) == grupos_en(objetos@.take(i as int)),
        decreases objetos.len() - i,
    {
        assert(objetos@.take(i + 1).drop_last() =~= objetos@.take(i as int));
        let f = &objetos[i];
        if f.boton && (f.banderas & (RADIO as i64)) != 0 {
            match &f.nombre {
                Some(n) => {
                    let ghost antes = r@;
                    r.push((n.clone(), f.id));
                    assert(radios_vistos(r@) =~= radios_vistos(antes).push((n@, f.id)));
                },
                None => {},
            }
        }
        i = i + 1;
    }
    assert(objetos@.take(objetos.len() as int) =~= objetos@);
    r
}

/// **Lo que se decide al crear un campo de formulario**, en el orden del
/// editor: un nombre vacío, un área de menos de 8 puntos, un radio sin
/// grupo o un desplegable sin opciones se rechazan antes de mirar la
/// página; luego una página que no existe, una clase desconocida y una
/// opción de radio que se llame «Off». Si se crea, lleva el primer nombre
/// libre (`nombre`, `nombre-2`…); un radio cuelga del grupo que ya se llama
/// así, si lo hay, para que marcar uno desmarque los demás (una sola
/// entrada en `/Fields` con un `/Kids` por opción).
pub fn plan_de_campo(nombre: &str, tipo: &str, pagina: u16, paginas: usize, area_suficiente: bool,
    grupo: &Option<String>, valor_exportado: &Option<String>, opciones: &Option<Vec<String>>,
    props: &PropsCampo, usados: &Vec<String>, radios: &Vec<(String, Referencia)>) -> (r: Result<PlanDeCampo, String>)
    ensures
        ({
            let n = recortado(nombre@);
            let g = grupo_limpio(texto_de(*grupo));
            let ops = opciones_limpias(*opciones);
            let ex = exportado_de(texto_de(*valor_exportado), n);
            match r {
                Err(m) => fallo_de_campo(n, tipo@, pagina as int, paginas as int, area_suficiente, g, ops, ex) == Some(m@),
                Ok(p) => fallo_de_campo(n, tipo@, pagina as int, paginas as int, area_suficiente, g, ops, ex) is None
                    && plan_correcto(p, n, tipo@, g, ops, ex, *props, nombres(usados@), radios_vistos(radios@)),
            }
        }),
        r matches Ok(p) ==> ((p.banderas & OBLIGATORIO != 0) <==> props.obligatorio)
            && ((p.banderas & SOLO_LECTURA != 0) <==> props.solo_lectura),
{
    proof {
        reveal_strlit("text");
        reveal_strlit("checkbox");
        reveal_strlit("radio");
        reveal_strlit("combo");
        reveal_strlit("list");
        assert("text"@[0] != "checkbox"@[0] && "text"@[0] != "radio"@[0] && "text"@[0] != "combo"@[0]
            && "text"@[0] != "list"@[0]);
        assert("checkbox"@[0] != "radio"@[0] && "checkbox"@[1] != "combo"@[1] && "checkbox"@[0] != "list"@[0]);
        assert("radio"@[0] != "combo"@[0] && "radio"@[0] != "list"@[0] && "combo"@[0] != "list"@[0]);
    }
    let n = recorta(nombre);
    if n.as_str().is_empty() {
        return Err(String::from_str("El campo necesita un nombre"));
    }
    if !area_suficiente {
        return Err(String::from_str("El área del campo es demasiado pequeña"));
    }
    let g = match grupo {
        Some(x) => recorta(x.as_str()),
        None => String::new(),
    };
    let es_texto = mismo_texto(tipo, "text");
    let es_casilla = mismo_texto(tipo, "checkbox");
    let es_radio = mismo_texto(tipo, "radio");
    let es_combo = mismo_texto(tipo, "combo");
    let es_lista = mismo_texto(tipo, "list");
    if es_radio && g.as_str().is_empty() {
        return Err(String::from_str("Un botón de radio necesita el nombre de su grupo"));
    }
    let ops = limpia_opciones(opciones);
    if (es_combo || es_lista) && ops.len() == 0 {
        return Err(String::from_str("Un desplegable necesita al menos una opción"));
    }
    if pagina as usize >= paginas {
        return Err(String::from_str("Página fuera de rango"));
    }
    if !(es_texto || es_casilla || es_radio || es_combo || es_lista) {
        return Err(une("Tipo de campo desconocido: ", tipo));
    }
    let ex = match valor_exportado {
        Some(v) => {
            let t = recorta(v.as_str());
            if t.as_str().is_empty() { n.clone() } else { t }
        },
        None => n.clone(),
    };
    if es_radio && mismo_texto(ex.as_str(), "Off") {
        return Err(String::from_str("«Off» no puede ser el valor de una opción"));
    }
    let mut copia = copia_nombres(usados);
    let libre = primer_nombre_libre(n.as_str(), "-", &mut copia);
    let mut banderas: u32 = 0;
    if props.obligatorio {
        banderas = banderas + OBLIGATORIO;
    }
    if props.solo_lectura {
        banderas = banderas + SOLO_LECTURA;
    }
    if es_combo {
        banderas = banderas + COMBO;
    }
    if es_radio {
        banderas = banderas + RADIO;
    }
    let ayuda = match &props.tooltip {
        Some(t) => {
            let limpio = recorta(t.as_str());
            if limpio.as_str().is_empty() { None } else { Some(t.clone()) }
        },
        None => None,
    };
    let padre = if es_radio { busca_grupo(radios, g.as_str()) } else { None };
    let marcado = if es_casilla {
        match &props.valor_defecto {
            Some(v) => es_si_exec(v.as_str()),
            None => false,
        }
    } else if es_radio {
        match &props.valor_defecto {
            Some(v) => mismo_texto(v.as_str(), ex.as_str()),
            None => false,
        }
    } else {
        false
    };
    let mut indice: Option<usize> = None;
    let valor = if es_texto {
        match &props.valor_defecto {
            Some(v) => v.clone(),
            None => String::new(),
        }
    } else if es_combo || es_lista {
        match &props.valor_defecto {
            Some(v) => match posicion(&ops, v.as_str()) {
                Some(i) => {
                    indice = Some(i);
                    v.clone()
                },
                None => String::new(),
            },
            None => String::new(),
        }
    } else {
        String::new()
    };
    let tipo_campo = if es_texto {
        TipoCampo::Texto
    } else if es_casilla {
        TipoCampo::Casilla
    } else if es_radio {
        TipoCampo::Radio
    } else if es_combo {
        TipoCampo::Desplegable
    } else {
        TipoCampo::Lista
    };
    let exportado = if es_radio { ex } else { String::new() };
    let p = PlanDeCampo {
        tipo: tipo_campo,
        nombre: libre,
        grupo: g,
        valor_exportado: exportado,
        padre,
        opciones: ops,
        banderas,
        ayuda,
        con_defecto: props.valor_defecto.is_some(),
        marcado,
        valor,
        indice,
    };
    proof {
        // las opciones que quedan no son vacías: un valor vacío no es una
        // de ellas
        if opciones.is_some() {
            let v = opciones->Some_0;
            let oo = opciones_limpias(*opciones);
            assert forall|k: int| 0 <= k < oo.len() implies oo[k].len() > 0 by {
                recortadas(nombres(v@)).lemma_filter_pred(con_texto(), k);
            }
        }
    }
    proof {
        let n = recortado(nombre@);
        let gg = grupo_limpio(texto_de(*grupo));
        let oo = opciones_limpias(*opciones);
        let ee = exportado_de(texto_de(*valor_exportado), n);
        ley_banderas_del_plan(p, n, tipo@, gg, oo, ee, *props, nombres(usados@), radios_vistos(radios@));
    }
    Ok(p)
}

/// **Un lote de campos**: uno vacío se rechaza; si no, lo que se devuelve
/// es cuántos se crean, contados en 16 bits.
pub fn cuantos_campos(n: usize) -> (r: Result<u16, String>)
    ensures
        match r {
            Ok(c) => n > 0 && c == n as u16,
            Err(m) => n == 0 && m@ == "No hay ningún campo que crear"@,
        },
{
    if n == 0 {
        Err(String::from_str("No hay ningún campo que crear"))
    } else {
        Ok(n as u16)
    }
}

} // verus!

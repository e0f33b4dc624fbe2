//! Menú nativo del sistema: Archivo, Editar, Ver, Documento y Ayuda.
//!
//! Es un espejo del menú «Acciones» de la app: cada entrada emite el evento
//! `menu-accion` con su `id` y la interfaz lo enruta a la misma función que
//! su botón. La lista de ids de [`estructura`] es la única que hay. Lo que
//! el sistema hace mejor que nosotros va como entrada nativa: Salir y
//! Acerca de, que en macOS viven en el menú de la aplicación.
//!
//! Aquí están los datos del menú y lo que se decide con ellos (qué entradas
//! se atenúan sin documento, cuáles se reponen fuera de macOS); montar el
//! menú con el sistema de ventanas lo hace quien llama.

use vstd::prelude::*;

verus! {

/// Nombre del evento hacia la interfaz. Carga: `{ "id": "…" }`.
pub const EVENTO: &'static str = "menu-accion";

/// Entrada que resuelve el sistema, no la interfaz.
#[derive(Clone, Copy, PartialEq, Eq, Structural, Debug)]
pub enum Nativa {
    /// En macOS ya está en el menú de la aplicación; fuera, al final de
    /// Archivo.
    Salir,
    /// Ídem, al final de Ayuda.
    AcercaDe,
}

impl Nativa {
    /// macOS ya las pone en el menú de la aplicación, así que ahí no se
    /// repiten.
    pub fn solo_fuera_de_macos(self) -> (r: bool)
        ensures
            r == (self == Nativa::Salir || self == Nativa::AcercaDe),
    {
        match self {
            Nativa::Salir | Nativa::AcercaDe => true,
        }
    }
}

/// Una entrada del menú que emite `menu-accion`.
#[derive(Clone, Copy)]
pub struct Entrada {
    /// El `id` que viaja en el evento: es el contrato con la interfaz.
    pub id: &'static str,
    pub etiqueta: &'static str,
    /// Atajo en la sintaxis de Tauri (`CmdOrCtrl+O`), o nada.
    pub atajo: Option<&'static str>,
    /// Se atenúa cuando no hay documento abierto, en vez de desaparecer.
    pub necesita_documento: bool,
    /// La mitad de la interfaz de este id llega en otra rama: el test
    /// cruzado avisa en vez de fallar.
    pub pendiente_ui: bool,
}

/// Un elemento de un grupo del menú.
pub enum Elemento {
    Separador,
    Accion(Entrada),
    Nativa(Nativa),
}

/// Un grupo del menú: su título y sus elementos.
pub struct Grupo {
    pub titulo: &'static str,
    pub entradas: Vec<Elemento>,
}

fn e(id: &'static str, etiqueta: &'static str, atajo: Option<&'static str>, necesita_documento: bool) -> (r: Elemento)
    ensures
        r == Elemento::Accion(Entrada { id, etiqueta, atajo, necesita_documento, pendiente_ui: false }),
{
    Elemento::Accion(Entrada { id, etiqueta, atajo, necesita_documento, pendiente_ui: false })
}

fn ep(id: &'static str, etiqueta: &'static str, atajo: Option<&'static str>, necesita_documento: bool) -> (r: Elemento)
    ensures
        r == Elemento::Accion(Entrada { id, etiqueta, atajo, necesita_documento, pendiente_ui: true }),
{
    Elemento::Accion(Entrada { id, etiqueta, atajo, necesita_documento, pendiente_ui: true })
}

fn sep() -> (r: Elemento)
    ensures
        r == Elemento::Separador,
{
    Elemento::Separador
}

/// La estructura entera del menú, como datos: cinco grupos, en este orden.
/// Una entrada que emite `menu-accion`.
pub open spec fn accion(id: &'static str, etiqueta: &'static str, atajo: Option<&'static str>, necesita_documento: bool) -> Elemento {
    Elemento::Accion(Entrada { id, etiqueta, atajo, necesita_documento, pendiente_ui: false })
}

/// Una entrada cuya mitad de la interfaz llega en otra rama.
pub open spec fn accion_pendiente(id: &'static str, etiqueta: &'static str, atajo: Option<&'static str>, necesita_documento: bool) -> Elemento {
    Elemento::Accion(Entrada { id, etiqueta, atajo, necesita_documento, pendiente_ui: true })
}

/// Los títulos de los grupos del menú, en orden.
pub open spec fn titulos_del_menu() -> Seq<&'static str> {
    seq!["Archivo", "Editar", "Ver", "Documento", "Ayuda"]
}

/// Los elementos de cada grupo del menú, en orden.
pub open spec fn elementos_del_menu() -> Seq<Seq<Elemento>> {
    seq![
        seq![
            accion("abrir", "Abrir…", Some("CmdOrCtrl+O"), false),
            accion("abrir-reciente", "Abrir reciente…", None, false),
            accion("crear-desde-imagenes", "Crear PDF desde imágenes…", None, false),
            Elemento::Separador,
            accion("guardar", "Guardar", Some("CmdOrCtrl+S"), true),
            accion("guardar-como", "Guardar como…", Some("Shift+CmdOrCtrl+S"), true),
            accion("cerrar-documento", "Cerrar documento", None, true),
            Elemento::Separador,
            accion("anadir-pdf", "Añadir PDF…", None, true),
            accion("insertar-pdf", "Insertar PDF aquí…", None, true),
            accion("combinar-ficheros", "Combinar ficheros…", None, true),
            accion("reemplazar-paginas", "Reemplazar páginas…", None, true),
            accion("extraer-paginas", "Extraer páginas…", None, true),
            accion("dividir-documento", "Dividir documento…", None, true),
            Elemento::Separador,
            accion("imprimir", "Imprimir…", Some("CmdOrCtrl+P"), true),
            Elemento::Separador,
            Elemento::Nativa(Nativa::Salir),
        ],
        seq![
            accion("deshacer", "Deshacer", Some("CmdOrCtrl+Z"), true),
            accion("rehacer", "Rehacer", Some("Shift+CmdOrCtrl+Z"), true),
            Elemento::Separador,
            accion("copiar", "Copiar", Some("CmdOrCtrl+C"), true),
            accion("seleccionar-todo", "Seleccionar todo", Some("CmdOrCtrl+A"), true),
            Elemento::Separador,
            accion("buscar", "Buscar…", Some("CmdOrCtrl+F"), true),
            accion("buscar-siguiente", "Coincidencia siguiente", Some("CmdOrCtrl+G"), true),
            accion(
                "buscar-anterior",
                "Coincidencia anterior",
                Some("Shift+CmdOrCtrl+G"),
                true,
            ),
            Elemento::Separador,
            accion("preferencias", "Preferencias…", Some("CmdOrCtrl+,"), false),
        ],
        seq![
            accion("zoom-mas", "Acercar", Some("CmdOrCtrl+Plus"), true),
            accion("zoom-menos", "Alejar", Some("CmdOrCtrl+-"), true),
            Elemento::Separador,
            accion("zoom-pagina", "Página entera", Some("CmdOrCtrl+0"), true),
            accion("zoom-100", "Tamaño real", Some("CmdOrCtrl+1"), true),
            accion("zoom-ancho", "Ajustar al ancho", Some("CmdOrCtrl+2"), true),
            Elemento::Separador,
            accion("pagina-una", "Una sola página", None, true),
            accion("pagina-continua", "Desplazamiento continuo", None, true),
            accion("pagina-dos", "Dos páginas", None, true),
            accion("pagina-dos-continua", "Dos páginas continuas", None, true),
            Elemento::Separador,
            accion("girar-vista-derecha", "Girar la vista a la derecha", Some("Shift+CmdOrCtrl+Plus"), true),
            accion("girar-vista-izquierda", "Girar la vista a la izquierda", Some("Shift+CmdOrCtrl+-"), true),
            Elemento::Separador,
            accion("vista-atras", "Vista anterior", Some("Alt+Left"), true),
            accion("vista-adelante", "Vista siguiente", Some("Alt+Right"), true),
            Elemento::Separador,
            accion("panel-lateral", "Panel lateral", Some("Alt+CmdOrCtrl+1"), false),
            accion("pantalla-completa", "Pantalla completa", Some("CmdOrCtrl+L"), false),
            accion("modo-nocturno", "Modo nocturno del documento", None, false),
            Elemento::Separador,
            accion_pendiente("leer-en-voz-alta", "Leer en voz alta", Some("Shift+CmdOrCtrl+Y"), true),
        ],
        seq![
            accion("organizar-paginas", "Organizar páginas…", None, true),
            accion("recortar-pagina", "Recortar página…", None, true),
            accion("marca-de-agua", "Marca de agua…", None, true),
            accion("encabezado-pie", "Encabezado, pie y numeración…", None, true),
            accion("quitar-marca-de-agua", "Quitar marca de agua…", None, true),
            accion("quitar-encabezados", "Quitar encabezados y pies…", None, true),
            Elemento::Separador,
            accion("anadir-campo", "Añadir campo de formulario…", None, true),
            accion("anadir-enlace", "Añadir enlace…", None, true),
            Elemento::Separador,
            accion("firmar", "Firma digital (certificado)…", None, true),
            accion("proteger", "Proteger con contraseña…", None, true),
            accion("quitar-proteccion", "Quitar la contraseña…", None, true),
            accion("aplanar", "Fijar las anotaciones en la página…", None, true),
            accion("redactar", "Redactar (censurar)…", None, true),
            accion("sanitizar", "Quitar información oculta…", None, true),
            Elemento::Separador,
            accion("propiedades", "Propiedades del documento…", Some("CmdOrCtrl+D"), true),
            Elemento::Separador,
            accion("exportar-imagenes", "Exportar como imágenes…", None, true),
            accion("exportar-texto", "Exportar texto…", None, true),
            accion("exportar-word", "Exportar a Word (.docx)…", None, true),
            accion_pendiente("exportar-comentarios", "Exportar comentarios…", None, true),
            accion("comprimir", "Reducir tamaño…", None, true),
        ],
        seq![
            accion("atajos", "Atajos de teclado", Some("CmdOrCtrl+/"), false),
            Elemento::Separador,
            Elemento::Nativa(Nativa::AcercaDe),
        ],
    ]
}

pub fn estructura() -> (r: Vec<Grupo>)
    ensures
        r@.len() == 5,
        forall|i: int| 0 <= i < 5 ==> (#[trigger] r@[i]).titulo == titulos_del_menu()[i]
            && r@[i].entradas@ == elementos_del_menu()[i],
{
    vec![
        Grupo {
            titulo: "Archivo",
            entradas: vec![
                e("abrir", "Abrir…", Some("CmdOrCtrl+O"), false),
                e("abrir-reciente", "Abrir reciente…", None, false),
                e("crear-desde-imagenes", "Crear PDF desde imágenes…", None, false),
                sep(),
                e("guardar", "Guardar", Some("CmdOrCtrl+S"), true),
                e("guardar-como", "Guardar como…", Some("Shift+CmdOrCtrl+S"), true),
                e("cerrar-documento", "Cerrar documento", None, true),
                sep(),
                e("anadir-pdf", "Añadir PDF…", None, true),
                e("insertar-pdf", "Insertar PDF aquí…", None, true),
                e("combinar-ficheros", "Combinar ficheros…", None, true),
                e("reemplazar-paginas", "Reemplazar páginas…", None, true),
                e("extraer-paginas", "Extraer páginas…", None, true),
                e("dividir-documento", "Dividir documento…", None, true),
                sep(),
                e("imprimir", "Imprimir…", Some("CmdOrCtrl+P"), true),
                sep(),
                Elemento::Nativa(Nativa::Salir),
            ],
        },
        Grupo {
            titulo: "Editar",
            entradas: vec![
                e("deshacer", "Deshacer", Some("CmdOrCtrl+Z"), true),
                e("rehacer", "Rehacer", Some("Shift+CmdOrCtrl+Z"), true),
                sep(),
                e("copiar", "Copiar", Some("CmdOrCtrl+C"), true),
                e("seleccionar-todo", "Seleccionar todo", Some("CmdOrCtrl+A"), true),
                sep(),
                e("buscar", "Buscar…", Some("CmdOrCtrl+F"), true),
                e("buscar-siguiente", "Coincidencia siguiente", Some("CmdOrCtrl+G"), true),
                e(
                    "buscar-anterior",
                    "Coincidencia anterior",
                    Some("Shift+CmdOrCtrl+G"),
                    true,
                ),
                sep(),
                e("preferencias", "Preferencias…", Some("CmdOrCtrl+,"), false),
            ],
        },
        Grupo {
            titulo: "Ver",
            entradas: vec![
                e("zoom-mas", "Acercar", Some("CmdOrCtrl+Plus"), true),
                e("zoom-menos", "Alejar", Some("CmdOrCtrl+-"), true),
                sep(),
                e("zoom-pagina", "Página entera", Some("CmdOrCtrl+0"), true),
                e("zoom-100", "Tamaño real", Some("CmdOrCtrl+1"), true),
                e("zoom-ancho", "Ajustar al ancho", Some("CmdOrCtrl+2"), true),
                sep(),
                e("pagina-una", "Una sola página", None, true),
                e("pagina-continua", "Desplazamiento continuo", None, true),
                e("pagina-dos", "Dos páginas", None, true),
                e("pagina-dos-continua", "Dos páginas continuas", None, true),
                sep(),
                e("girar-vista-derecha", "Girar la vista a la derecha", Some("Shift+CmdOrCtrl+Plus"), true),
                e("girar-vista-izquierda", "Girar la vista a la izquierda", Some("Shift+CmdOrCtrl+-"), true),
                sep(),
                e("vista-atras", "Vista anterior", Some("Alt+Left"), true),
                e("vista-adelante", "Vista siguiente", Some("Alt+Right"), true),
                sep(),
                e("panel-lateral", "Panel lateral", Some("Alt+CmdOrCtrl+1"), false),
                e("pantalla-completa", "Pantalla completa", Some("CmdOrCtrl+L"), false),
                e("modo-nocturno", "Modo nocturno del documento", None, false),
                sep(),
                ep("leer-en-voz-alta", "Leer en voz alta", Some("Shift+CmdOrCtrl+Y"), true),
            ],
        },
        Grupo {
            titulo: "Documento",
            entradas: vec![
                e("organizar-paginas", "Organizar páginas…", None, true),
                e("recortar-pagina", "Recortar página…", None, true),
                e("marca-de-agua", "Marca de agua…", None, true),
                e("encabezado-pie", "Encabezado, pie y numeración…", None, true),
                e("quitar-marca-de-agua", "Quitar marca de agua…", None, true),
                e("quitar-encabezados", "Quitar encabezados y pies…", None, true),
                sep(),
                e("anadir-campo", "Añadir campo de formulario…", None, true),
                e("anadir-enlace", "Añadir enlace…", None, true),
                sep(),
                e("firmar", "Firma digital (certificado)…", None, true),
                e("proteger", "Proteger con contraseña…", None, true),
                e("quitar-proteccion", "Quitar la contraseña…", None, true),
                e("aplanar", "Fijar las anotaciones en la página…", None, true),
                e("redactar", "Redactar (censurar)…", None, true),
                e("sanitizar", "Quitar información oculta…", None, true),
                sep(),
                e("propiedades", "Propiedades del documento…", Some("CmdOrCtrl+D"), true),
                sep(),
                e("exportar-imagenes", "Exportar como imágenes…", None, true),
                e("exportar-texto", "Exportar texto…", None, true),
                e("exportar-word", "Exportar a Word (.docx)…", None, true),
                ep("exportar-comentarios", "Exportar comentarios…", None, true),
                e("comprimir", "Reducir tamaño…", None, true),
            ],
        },
        Grupo {
            titulo: "Ayuda",
            entradas: vec![
                e("atajos", "Atajos de teclado", Some("CmdOrCtrl+/"), false),
                sep(),
                Elemento::Nativa(Nativa::AcercaDe),
            ],
        },
    ]
}

/// Las entradas de acción de un grupo, en orden.
pub open spec fn acciones_de_grupo(es: Seq<Elemento>) -> Seq<Entrada>
    decreases es.len(),
{
    if es.len() == 0 {
        Seq::empty()
    } else {
        let antes = acciones_de_grupo(es.drop_last());
        match es.last() {
            Elemento::Accion(en) => antes.push(en),
            _ => antes,
        }
    }
}

/// Las entradas de acción del menú entero, grupo a grupo.
pub open spec fn acciones(gs: Seq<Grupo>) -> Seq<Entrada>
    decreases gs.len(),
{
    if gs.len() == 0 { Seq::empty() } else { acciones(gs.drop_last()) + acciones_de_grupo(gs.last().entradas@) }
}

/// Las entradas nativas de un grupo, en orden.
pub open spec fn nativas_de_grupo(es: Seq<Elemento>) -> Seq<Nativa>
    decreases es.len(),
{
    if es.len() == 0 {
        Seq::empty()
    } else {
        let antes = nativas_de_grupo(es.drop_last());
        match es.last() {
            Elemento::Nativa(n) => antes.push(n),
            _ => antes,
        }
    }
}

pub open spec fn nativas_spec(gs: Seq<Grupo>) -> Seq<Nativa>
    decreases gs.len(),
{
    if gs.len() == 0 { Seq::empty() } else { nativas_spec(gs.drop_last()) + nativas_de_grupo(gs.last().entradas@) }
}

/// Las entradas que emiten `menu-accion`, en el orden del menú.
pub fn entradas(grupos: &Vec<Grupo>) -> (r: Vec<Entrada>)
    ensures
        r@ == acciones(grupos@),
{
    let mut out: Vec<Entrada> = Vec::new();
    let mut g: usize = 0;
    while g < grupos.len()
        invariant
            g <= grupos.len(),
            out@ == acciones(grupos@.take(g as int)),
        decreases grupos.len() - g,
    {
        let es = &grupos[g].entradas;
        let ghost antes = out@;
        let mut k: usize = 0;
        while k < es.len()
            invariant
                es == &grupos@[g as int].entradas,
                k <= es.len(),
                out@ == antes + acciones_de_grupo(es@.take(k as int)),
            decreases es.len() - k,
        {
            assert(es@.take(k + 1).drop_last() =~= es@.take(k as int));
            match &es[k] {
                Elemento::Accion(en) => { out.push(*en); },
                _ => {},
            }
            k = k + 1;
        }
        assert(es@.take(es.len() as int) =~= es@);
        assert(grupos@.take(g + 1).drop_last() =~= grupos@.take(g as int));
        g = g + 1;
    }
    assert(grupos@.take(grupos.len() as int) =~= grupos@);
    out
}

/// Las entradas nativas del menú, en orden.
pub fn nativas(grupos: &Vec<Grupo>) -> (r: Vec<Nativa>)
    ensures
        r@ == nativas_spec(grupos@),
{
    let mut out: Vec<Nativa> = Vec::new();
    let mut g: usize = 0;
    while g < grupos.len()
        invariant
            g <= grupos.len(),
            out@ == nativas_spec(grupos@.take(g as int)),
        decreases grupos.len() - g,
    {
        let es = &grupos[g].entradas;
        let ghost antes = out@;
        let mut k: usize = 0;
        while k < es.len()
            invariant
                es == &grupos@[g as int].entradas,
                k <= es.len(),
                out@ == antes + nativas_de_grupo(es@.take(k as int)),
            decreases es.len() - k,
        {
            assert(es@.take(k + 1).drop_last() =~= es@.take(k as int));
            match &es[k] {
                Elemento::Nativa(n) => { out.push(*n); },
                _ => {},
            }
            k = k + 1;
        }
        assert(es@.take(es.len() as int) =~= es@);
        assert(grupos@.take(g + 1).drop_last() =~= grupos@.take(g as int));
        g = g + 1;
    }
    assert(grupos@.take(grupos.len() as int) =~= grupos@);
    out
}

/// Los ids de unas entradas, en orden.
pub fn ids_de(es: &Vec<Entrada>) -> (r: Vec<&'static str>)
    ensures
        r@.len() == es@.len(),
        forall|i: int| 0 <= i < r@.len() ==> r@[i] == es@[i].id,
{
    let mut out: Vec<&'static str> = Vec::new();
    let mut k: usize = 0;
    while k < es.len()
        invariant
            k <= es.len(),
            out@.len() == k,
            forall|i: int| 0 <= i < k ==> out@[i] == es@[i].id,
        decreases es.len() - k,
    {
        out.push(es[k].id);
        k = k + 1;
    }
    out
}

/// Las entradas de acción de unas listas de elementos, lista a lista.
pub open spec fn acciones_de_listas(ls: Seq<Seq<Elemento>>) -> Seq<Entrada>
    decreases ls.len(),
{
    if ls.len() == 0 { Seq::empty() } else { acciones_de_listas(ls.drop_last()) + acciones_de_grupo(ls.last()) }
}

/// Los ids de unas entradas, en orden.
pub open spec fn ids_spec(es: Seq<Entrada>) -> Seq<&'static str> {
    es.map_values(|en: Entrada| en.id)
}

proof fn acciones_por_listas(gs: Seq<Grupo>, ls: Seq<Seq<Elemento>>)
    requires
        gs.len() == ls.len(),
        forall|i: int| 0 <= i < gs.len() ==> (#[trigger] gs[i]).entradas@ == ls[i],
    ensures
        acciones(gs) == acciones_de_listas(ls),
    decreases gs.len(),
{
    if gs.len() > 0 {
        assert forall|i: int| 0 <= i < gs.drop_last().len() implies (#[trigger] gs.drop_last()[i]).entradas@ == ls.drop_last()[i] by {
            assert(gs.drop_last()[i] == gs[i]);
        }
        acciones_por_listas(gs.drop_last(), ls.drop_last());
        assert(gs.last().entradas@ == ls.last());
    }
}

/// Los ids del menú, en orden: la lista que enruta la interfaz.
pub fn ids() -> (r: Vec<&'static str>)
    ensures
        r@ == ids_spec(acciones_de_listas(elementos_del_menu())),
{
    let grupos = estructura();
    proof {
        assert(elementos_del_menu().len() == 5);
        acciones_por_listas(grupos@, elementos_del_menu());
    }
    let es = entradas(&grupos);
    let r = ids_de(&es);
    assert(r@ =~= ids_spec(es@));
    r
}

/// ¿Se puede usar esta entrada? Sin documento abierto se atenúa lo que lo
/// necesita; lo demás sigue disponible.
pub open spec fn habilitada_spec(en: Entrada, hay_documento: bool) -> bool {
    !en.necesita_documento || hay_documento
}

/// Qué entradas quedan encendidas: para cada id del menú, en orden, si se
/// puede usar con o sin documento abierto.
pub fn refleja_documento(grupos: &Vec<Grupo>, hay_documento: bool) -> (r: Vec<(&'static str, bool)>)
    ensures
        r@.len() == acciones(grupos@).len(),
        forall|i: int| 0 <= i < r@.len() ==> r@[i] == (acciones(grupos@)[i].id, habilitada_spec(acciones(grupos@)[i], hay_documento)),
{
    let es = entradas(grupos);
    let mut out: Vec<(&'static str, bool)> = Vec::new();
    let mut k: usize = 0;
    while k < es.len()
        invariant
            es@ == acciones(grupos@),
            k <= es.len(),
            out@.len() == k,
            forall|i: int| 0 <= i < k ==> out@[i] == (es@[i].id, habilitada_spec(es@[i], hay_documento)),
        decreases es.len() - k,
    {
        out.push((es[k].id, !es[k].necesita_documento || hay_documento));
        k = k + 1;
    }
    out
}

/// ¿Se pone esta entrada nativa? En macOS, las que ya están en el menú de
/// la aplicación no se repiten.
pub fn nativa_visible(n: Nativa, es_macos: bool) -> (r: bool)
    ensures
        r == !(es_macos && (n == Nativa::Salir || n == Nativa::AcercaDe)),
{
    !(es_macos && n.solo_fuera_de_macos())
}

/// Los atajos del menú con el id de su entrada, en orden.
pub open spec fn atajos_spec(es: Seq<Entrada>) -> Seq<(&'static str, &'static str)>
    decreases es.len(),
{
    if es.len() == 0 {
        Seq::empty()
    } else {
        let antes = atajos_spec(es.drop_last());
        match es.last().atajo {
            Some(a) => antes.push((es.last().id, a)),
            None => antes,
        }
    }
}

pub fn atajos(es: &Vec<Entrada>) -> (r: Vec<(&'static str, &'static str)>)
    ensures
        r@ == atajos_spec(es@),
{
    let mut out: Vec<(&'static str, &'static str)> = Vec::new();
    let mut k: usize = 0;
    while k < es.len()
        invariant
            k <= es.len(),
            out@ == atajos_spec(es@.take(k as int)),
        decreases es.len() - k,
    {
        assert(es@.take(k + 1).drop_last() =~= es@.take(k as int));
        match es[k].atajo {
            Some(a) => { out.push((es[k].id, a)); },
            None => {},
        }
        k = k + 1;
    }
    assert(es@.take(es.len() as int) =~= es@);
    out
}

/// ¿Hay algún texto repetido en la lista?
pub open spec fn hay_repetidos_spec(v: Seq<&'static str>) -> bool {
    exists|i: int, j: int| 0 <= i < j < v.len() && v[i]@ == v[j]@
}

pub fn hay_repetidos(v: &Vec<&'static str>) -> (r: bool)
    ensures
        r == hay_repetidos_spec(v@),
{
    let mut j: usize = 0;
    while j < v.len()
        invariant
            j <= v.len(),
            forall|a: int, b: int| 0 <= a < b < j ==> v@[a]@ != v@[b]@,
        decreases v.len() - j,
    {
        let mut i: usize = 0;
        while i < j
            invariant
                i <= j < v.len(),
                forall|a: int, b: int| 0 <= a < b < j ==> v@[a]@ != v@[b]@,
                forall|a: int| 0 <= a < i ==> v@[a]@ != v@[j as int]@,
            decreases j - i,
        {
            if crate::cadenas::mismo_texto(v[i], v[j]) {
                return true;
            }
            i = i + 1;
        }
        j = j + 1;
    }
    false
}

} // verus!

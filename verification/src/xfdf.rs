//! Los datos de un formulario fuera del PDF, en XFDF: cómo se escriben, lo
//! que se lee de ellos y a qué campo va cada dato al importarlo. El XML lo
//! trocea quick-xml en sucesos (abre etiqueta, texto, cierra etiqueta…);
//! aquí se decide qué es un campo, qué es un valor y cuándo acaba cada uno.

use vstd::prelude::*;
use crate::cadenas::{caracteres, en_minusculas, minusculas, mismo_texto, une};
use crate::errores::{mensaje_llano, mensaje_llano_spec};
use crate::campos::Referencia;
use crate::recientes::nombre_visible;
use crate::rutas::nombre_de_fichero;
use quick_xml::events::Event::{CData, Empty, End, Eof, GeneralRef, Start, Text};
use crate::xfdf::EventoXml::{Cdata, Entidad, Fin, Inicio, Otro, Texto, Vacio};
use quick_xml::events::BytesStart;
use quick_xml::Reader;

verus! {

/// Un suceso del XML.
pub enum EventoXml {
    /// Se abre una etiqueta: su nombre tal como viene y, sin tocar, lo que
    /// sigue al nombre (los atributos).
    Inicio(String, String),
    /// Una etiqueta que se abre y se cierra a la vez (`<x … />`), en la
    /// misma forma.
    Vacio(String, String),
    /// Texto entre etiquetas.
    Texto(String),
    /// El contenido de una sección `CDATA`.
    Cdata(String),
    /// Una referencia a una entidad (`&amp;` da `amp`).
    Entidad(String),
    /// Se cierra una etiqueta (su nombre local).
    Fin(String),
    /// Un comentario, una declaración, una instrucción de proceso o un
    /// `DOCTYPE`.
    Otro,
}

/// Un suceso visto como valores.
pub enum SucesoVisto {
    Inicio(Seq<char>, Seq<char>),
    Vacio(Seq<char>, Seq<char>),
    Texto(Seq<char>),
    Cdata(Seq<char>),
    Entidad(Seq<char>),
    Fin(Seq<char>),
    Otro,
}

pub open spec fn atributos_vistos(a: Seq<(String, String)>) -> Seq<(Seq<char>, Seq<char>)> {
    a.map_values(|x: (String, String)| (x.0@, x.1@))
}

impl View for EventoXml {
    type V = SucesoVisto;

    open spec fn view(&self) -> SucesoVisto {
        match self {
            EventoXml::Inicio(n, a) => SucesoVisto::Inicio(n@, a@),
            EventoXml::Vacio(n, a) => SucesoVisto::Vacio(n@, a@),
            EventoXml::Texto(t) => SucesoVisto::Texto(t@),
            EventoXml::Cdata(t) => SucesoVisto::Cdata(t@),
            EventoXml::Entidad(t) => SucesoVisto::Entidad(t@),
            EventoXml::Fin(e) => SucesoVisto::Fin(e@),
            EventoXml::Otro => SucesoVisto::Otro,
        }
    }
}

/// Un campo leído: su nombre y sus valores.
pub type CampoLeido = (Seq<char>, Seq<Seq<char>>);

/// Lo que se lleva leído.
pub struct EstadoXfdf {
    pub leidos: Seq<CampoLeido>,
    pub actual: Option<CampoLeido>,
    pub en_valor: bool,
    pub buffer: Seq<char>,
}

/// El nombre de un campo: el valor del primer atributo `name`; vacío si
/// no lo hay.
pub open spec fn nombre_en_atributos(a: Seq<(Seq<char>, Seq<char>)>) -> Seq<char>
    decreases a.len(),
{
    if a.len() == 0 {
        Seq::empty()
    } else if a[0].0 == "name"@ {
        a[0].1
    } else {
        nombre_en_atributos(a.drop_first())
    }
}

/// Lo leído con el campo en curso cerrado, si lo había.
pub open spec fn con_el_actual(e: EstadoXfdf) -> Seq<CampoLeido> {
    match e.actual {
        Some(c) => e.leidos.push(c),
        None => e.leidos,
    }
}

/// Un suceso más.
pub open spec fn paso(e: EstadoXfdf, s: SucesoVisto) -> EstadoXfdf {
    match s {
        SucesoVisto::Inicio(crudo, resto) => {
            let (et, at) = etiqueta_xml(crudo, resto);
            let t = minusculas(et);
            if t == "field"@ {
                EstadoXfdf { leidos: con_el_actual(e), actual: Some((nombre_en_atributos(at), Seq::empty())), ..e }
            } else if t == "value"@ {
                EstadoXfdf { en_valor: true, buffer: Seq::empty(), ..e }
            } else {
                e
            }
        },
        SucesoVisto::Texto(t) => if e.en_valor { EstadoXfdf { buffer: e.buffer + t, ..e } } else { e },
        SucesoVisto::Fin(et) => {
            let t = minusculas(et);
            if t == "value"@ {
                EstadoXfdf {
                    en_valor: false,
                    actual: match e.actual {
                        Some((n, vs)) => Some((n, vs.push(e.buffer))),
                        None => None,
                    },
                    ..e
                }
            } else if t == "field"@ {
                EstadoXfdf { leidos: con_el_actual(e), actual: None, ..e }
            } else {
                e
            }
        },
        _ => e,
    }
}

/// Antes de leer nada.
pub open spec fn inicial() -> EstadoXfdf {
    EstadoXfdf { leidos: Seq::empty(), actual: None, en_valor: false, buffer: Seq::empty() }
}

/// Lo que se lleva leído tras unos sucesos.
pub open spec fn tras(s: Seq<SucesoVisto>) -> EstadoXfdf
    decreases s.len(),
{
    if s.len() == 0 { inicial() } else { paso(tras(s.drop_last()), s.last()) }
}

/// ¿Tiene nombre el campo?
pub open spec fn con_nombre() -> spec_fn(CampoLeido) -> bool {
    |c: CampoLeido| c.0.len() > 0
}

/// Los campos leídos al acabar: con el que estuviera en curso y sin los que
/// no tienen nombre.
pub open spec fn campos_leidos(e: EstadoXfdf) -> Seq<CampoLeido> {
    con_el_actual(e).filter(con_nombre())
}

/// Un campo leído como valores.
pub open spec fn campo_visto(c: (String, Vec<String>)) -> CampoLeido {
    (c.0@, c.1@.map_values(|v: String| v@))
}

pub open spec fn campos_vistos(v: Seq<(String, Vec<String>)>) -> Seq<CampoLeido> {
    v.map_values(|c: (String, Vec<String>)| campo_visto(c))
}

/// El lector de un XFDF de datos.
pub struct LectorXfdf {
    pub leidos: Vec<(String, Vec<String>)>,
    pub actual: Option<(String, Vec<String>)>,
    pub en_valor: bool,
    pub buffer: String,
}

impl View for LectorXfdf {
    type V = EstadoXfdf;

    open spec fn view(&self) -> EstadoXfdf {
        EstadoXfdf {
            leidos: campos_vistos(self.leidos@),
            actual: match self.actual {
                Some(c) => Some(campo_visto(c)),
                None => None,
            },
            en_valor: self.en_valor,
            buffer: self.buffer@,
        }
    }
}

fn nombre_de_campo_xfdf(atributos: &Vec<(String, String)>) -> (r: String)
    ensures
        r@ == nombre_en_atributos(atributos_vistos(atributos@)),
{
    let ghost a = atributos_vistos(atributos@);
    let mut i: usize = 0;
    assert(a.skip(0) =~= a);
    while i < atributos.len()
        invariant
            a == atributos_vistos(atributos@),
            i <= atributos.len(),
            nombre_en_atributos(a) == nombre_en_atributos(a.skip(i as int)),
        decreases atributos.len() - i,
    {
        assert(a.skip(i as int)[0] == a[i as int]);
        if mismo_texto(atributos[i].0.as_str(), "name") {
            return atributos[i].1.clone();
        }
        assert(a.skip(i as int).drop_first() =~= a.skip(i + 1));
        i = i + 1;
    }
    String::new()
}

impl LectorXfdf {
    pub fn nuevo() -> (r: LectorXfdf)
        ensures
            r@ == inicial(),
    {
        let r = LectorXfdf { leidos: Vec::new(), actual: None, en_valor: false, buffer: String::new() };
        assert(r@.leidos =~= Seq::<CampoLeido>::empty());
        r
    }

    /// Cierra el campo en curso, si lo hay, y lo pasa a lo leído.
    fn cierra_campo(&mut self)
        ensures
            final(self)@ == (EstadoXfdf { leidos: con_el_actual(old(self)@), actual: None, ..old(self)@ }),
    {
        let ghost antes = self.leidos@;
        match self.actual.take() {
            Some(c) => {
                self.leidos.push(c);
                assert(campos_vistos(self.leidos@) =~= campos_vistos(antes).push(campo_visto(self.leidos@.last())));
            },
            None => {},
        }
    }

    /// Un suceso más del XML.
    pub fn lee(&mut self, s: &EventoXml)
        ensures
            final(self)@ == paso(old(self)@, s@),
            (s@ is Vacio || s@ is Cdata || s@ is Entidad || s@ is Otro) ==> final(self)@ == old(self)@,
    {
        proof {
            reveal_strlit("field");
            reveal_strlit("value");
            assert("field"@ != "value"@) by {
                assert("field"@[0] != "value"@[0]);
            }
        }
        match s {
            EventoXml::Inicio(crudo, resto) => {
                let (etiqueta, atributos) = lee_etiqueta(crudo.as_str(), resto.as_str());
                let t = en_minusculas(etiqueta.as_str());
                if mismo_texto(t.as_str(), "field") {
                    let nombre = nombre_de_campo_xfdf(&atributos);
                    self.cierra_campo();
                    let vacios: Vec<String> = Vec::new();
                    assert(vacios@.map_values(|v: String| v@) =~= Seq::<Seq<char>>::empty());
                    self.actual = Some((nombre, vacios));
                } else if mismo_texto(t.as_str(), "value") {
                    self.en_valor = true;
                    self.buffer = String::new();
                }
            },
            EventoXml::Texto(t) => {
                if self.en_valor {
                    self.buffer.append(t.as_str());
                }
            },
            EventoXml::Fin(etiqueta) => {
                let t = en_minusculas(etiqueta.as_str());
                if mismo_texto(t.as_str(), "value") {
                    self.en_valor = false;
                    match self.actual.take() {
                        Some((n, vs)) => {
                            let mut vs = vs;
                            let ghost antes = vs@;
                            vs.push(self.buffer.clone());
                            assert(vs@.map_values(|v: String| v@) =~= antes.map_values(|v: String| v@).push(self.buffer@));
                            self.actual = Some((n, vs));
                        },
                        None => {},
                    }
                } else if mismo_texto(t.as_str(), "field") {
                    self.cierra_campo();
                }
            },
            // una etiqueta vacía, un CDATA, una entidad o lo demás no
            // cambian lo leído
            _ => {},
        }
    }

    /// Los campos leídos: con el que estuviera en curso y sin los que no
    /// tienen nombre.
    pub fn termina(self) -> (r: Vec<(String, Vec<String>)>)
        ensures
            campos_vistos(r@) == campos_leidos(self@),
    {
        let mut yo = self;
        yo.cierra_campo();
        let todos = &yo.leidos;
        let ghost t = campos_vistos(todos@);
        let mut r: Vec<(String, Vec<String>)> = Vec::new();
        let mut i: usize = 0;
        while i < todos.len()
            invariant
                t == campos_vistos(todos@),
                i <= todos.len(),
                campos_vistos(r@) == t.take(i as int).filter(con_nombre()),
            decreases todos.len() - i,
        {
            let c = &todos[i];
            proof {
                assert(t.take(i + 1) =~= t.take(i as int).push(campo_visto(*c)));
                t.take(i as int).lemma_filter_push(campo_visto(*c), con_nombre());
            }
            if !c.0.as_str().is_empty() {
                let ghost antes = r@;
                r.push((c.0.clone(), copia_valores(&c.1)));
                assert(campos_vistos(r@) =~= campos_vistos(antes).push(campo_visto(*c)));
            }
            i = i + 1;
        }
        assert(t.take(todos.len() as int) =~= t);
        r
    }
}

/// Una copia de los valores de un campo.
fn copia_valores(v: &Vec<String>) -> (r: Vec<String>)
    ensures
        r@.map_values(|s: String| s@) == v@.map_values(|s: String| s@),
{
    let mut r: Vec<String> = Vec::new();
    let mut i: usize = 0;
    while i < v.len()
        invariant
            i <= v.len(),
            r@.map_values(|s: String| s@) == v@.take(i as int).map_values(|s: String| s@),
        decreases v.len() - i,
    {
        let ghost antes = r@;
        r.push(v[i].clone());
        assert(r@.map_values(|s: String| s@) =~= antes.map_values(|s: String| s@).push(v@[i as int]@));
        assert(v@.take(i + 1).map_values(|s: String| s@) =~= v@.take(i as int).map_values(|s: String| s@).push(v@[i as int]@));
        i = i + 1;
    }
    assert(v@.take(v.len() as int) =~= v@);
    r
}

/// Unos sucesos vistos como valores.
pub open spec fn sucesos_vistos(s: Seq<EventoXml>) -> Seq<SucesoVisto> {
    s.map_values(|e: EventoXml| e@)
}

/// **Los campos de un XFDF de datos**, a partir de sus sucesos: cada
/// `<field name>` abre un campo (y cierra el anterior), cada `<value>` le
/// añade un valor con el texto que encierra, y al acabar se quitan los que
/// no tienen nombre.
pub fn lee_sucesos(eventos: &Vec<EventoXml>) -> (r: Vec<(String, Vec<String>)>)
    ensures
        campos_vistos(r@) == campos_leidos(tras(sucesos_vistos(eventos@))),
{
    let mut lector = LectorXfdf::nuevo();
    let mut i: usize = 0;
    while i < eventos.len()
        invariant
            i <= eventos.len(),
            lector@ == tras(sucesos_vistos(eventos@).take(i as int)),
        decreases eventos.len() - i,
    {
        lector.lee(&eventos[i]);
        assert(sucesos_vistos(eventos@).take(i + 1).drop_last() =~= sucesos_vistos(eventos@).take(i as int));
        i = i + 1;
    }
    assert(sucesos_vistos(eventos@).take(eventos.len() as int) =~= sucesos_vistos(eventos@));
    lector.termina()
}

// ---------------------------------------------------------------------
// El XML, troceado por quick-xml

/// Lo que quick-xml lee de una etiqueta dada por su nombre y lo que le
/// sigue: su nombre local y sus atributos (nombre local y valor sin
/// tocar), en orden. Depende solo de esos dos textos.
pub uninterp spec fn etiqueta_xml(nombre: Seq<char>, resto: Seq<char>) -> (Seq<char>, Seq<(Seq<char>, Seq<char>)>);

/// `quick_xml::events::BytesStart::from_content` con `local_name` y
/// `attributes`: el nombre local de la etiqueta y sus atributos, los que
/// se dejan leer, como los nombra `etiqueta_xml`. El nombre mide lo que mide
/// su texto, así que el corte entre nombre y atributos cae entre dos
/// caracteres.
#[verifier::external_body]
fn lee_etiqueta(nombre: &str, resto: &str) -> (r: (String, Vec<(String, String)>))
    ensures
        (r.0@, atributos_vistos(r.1@)) == etiqueta_xml(nombre@, resto@),
{
    let e = BytesStart::from_content(format!("{nombre}{resto}"), nombre.len());
    let atributos = e.attributes().flatten().map(|a| (a.key.local_name().as_ref().to_string(), a.value.into_owned()));
    (e.local_name().as_ref().to_string(), atributos.collect())
}

/// Lo que quick-xml saca de un texto XML: sus sucesos, del primero al
/// final, o el error con que se para, tal como lo describe. Depende solo
/// del texto.
pub uninterp spec fn sucesos_xml(xml: Seq<char>) -> Result<Seq<SucesoVisto>, Seq<char>>;

/// `quick_xml::Reader::from_str` y `read_event` hasta el final: los
/// sucesos del texto, o el error del primero que no se deja leer. Cada
/// clase de suceso pasa a la suya, con su contenido: de una etiqueta, su
/// nombre y lo que le sigue sin tocar; del texto, de un `CDATA` y de una
/// referencia, su contenido tal cual; del cierre, su nombre local. Los
/// comentarios, declaraciones, instrucciones y `DOCTYPE` pasan como `Otro`.
/// El lector guarda su estado donde Verus no lo ve, así que es aquí donde
/// se le piden los sucesos uno tras otro; lo que promete es que son los
/// que nombra `sucesos_xml`.
#[verifier::external_body]
fn sucesos_de_xml(xml: &str) -> (r: Result<Vec<EventoXml>, String>)
    ensures
        match r {
            Ok(v) => sucesos_xml(xml@) == Ok::<Seq<SucesoVisto>, Seq<char>>(sucesos_vistos(v@)),
            Err(m) => sucesos_xml(xml@) == Err::<Seq<SucesoVisto>, Seq<char>>(m@),
        },
{
    let mut l = Reader::from_str(xml);
    let mut v = Vec::new();
    loop {
        let s = match l.read_event().map_err(|e| e.to_string())? {
            Eof => return Ok(v),
            Start(e) => Inicio(e.name().0.into(), e.attributes_raw().into()),
            Empty(e) => Vacio(e.name().0.into(), e.attributes_raw().into()),
            Text(t) => Texto(t.to_string()),
            CData(t) => Cdata(t.to_string()),
            GeneralRef(t) => Entidad(t.to_string()),
            End(e) => Fin(e.local_name().as_ref().into()),
            _ => Otro,
        };
        v.push(s);
    }
}

/// **Lee los pares nombre → valores de un XFDF de datos**: los campos que
/// `lee_sucesos` saca de los sucesos del texto; si el XML está mal, el
/// error de quick-xml contado en llano.
pub fn lee_xfdf_datos(xml: &str) -> (r: Result<Vec<(String, Vec<String>)>, String>)
    ensures
        match sucesos_xml(xml@) {
            Ok(s) => r matches Ok(v) && campos_vistos(v@) == campos_leidos(tras(s)),
            Err(d) => r matches Err(m) && m@ == mensaje_llano_spec("Ese fichero no es un XFDF que se pueda leer: "@ + d),
        },
{
    match sucesos_de_xml(xml) {
        Err(e) => {
            let m = une("Ese fichero no es un XFDF que se pueda leer: ", e.as_str());
            Err(mensaje_llano(m.as_str()))
        },
        Ok(eventos) => Ok(lee_sucesos(&eventos)),
    }
}

/// **Los datos de un XFDF para importarlos**: los de `lee_xfdf_datos`, y un
/// error si el fichero se lee pero no trae ninguno.
pub fn datos_para_importar(xml: &str) -> (r: Result<Vec<(String, Vec<String>)>, String>)
    ensures
        match sucesos_xml(xml@) {
            Ok(s) => if campos_leidos(tras(s)).len() == 0 {
                r matches Err(m) && m@ == "Ese fichero no trae datos de formulario"@
            } else {
                r matches Ok(v) && campos_vistos(v@) == campos_leidos(tras(s))
            },
            Err(d) => r matches Err(m) && m@ == mensaje_llano_spec("Ese fichero no es un XFDF que se pueda leer: "@ + d),
        },
{
    match lee_xfdf_datos(xml) {
        Err(m) => Err(m),
        Ok(v) => {
            if v.len() == 0 {
                Err(String::from_str("Ese fichero no trae datos de formulario"))
            } else {
                Ok(v)
            }
        },
    }
}

// ---------------------------------------------------------------------
// Los datos del formulario, hacia un XFDF

/// Un carácter escrito dentro de un texto o un atributo XML: los cinco que
/// el XML reserva, como entidad; los demás, tal cual.
pub open spec fn caracter_xml(c: char) -> Seq<char> {
    if c == '&' {
        "&amp;"@
    } else if c == '<' {
        "&lt;"@
    } else if c == '>' {
        "&gt;"@
    } else if c == '"' {
        "&quot;"@
    } else if c == '\'' {
        "&apos;"@
    } else {
        seq![c]
    }
}

/// Un texto escrito dentro de XML.
pub open spec fn escapado(s: Seq<char>) -> Seq<char>
    decreases s.len(),
{
    if s.len() == 0 { Seq::empty() } else { escapado(s.drop_last()) + caracter_xml(s.last()) }
}

/// Escribe un texto para ponerlo dentro de XML, entre etiquetas o entre
/// las comillas de un atributo.
pub fn escapa_xml(s: &str) -> (r: String)
    ensures
        r@ == escapado(s@),
{
    let v = caracteres(s);
    let mut r = String::new();
    let mut i: usize = 0;
    while i < v.len()
        invariant
            v@ == s@,
            i <= v.len(),
            r@ == escapado(v@.take(i as int)),
        decreases v.len() - i,
    {
        let c = v[i];
        assert(v@.take(i + 1).drop_last() =~= v@.take(i as int));
        if c == '&' {
            r.append("&amp;");
        } else if c == '<' {
            r.append("&lt;");
        } else if c == '>' {
            r.append("&gt;");
        } else if c == '"' {
            r.append("&quot;");
        } else if c == '\'' {
            r.append("&apos;");
        } else {
            r.push(c);
        }
        i = i + 1;
    }
    assert(v@.take(v.len() as int) =~= v@);
    r
}

/// Un campo por exportar: su nombre completo, sus valores y si es una
/// firma (que no es un dato que se rellene, y no sale).
pub type CampoParaExportar = (Seq<char>, Seq<Seq<char>>, bool);

pub open spec fn para_exportar(c: Seq<(String, Vec<String>, bool)>) -> Seq<CampoParaExportar> {
    c.map_values(|x: (String, Vec<String>, bool)| (x.0@, x.1@.map_values(|v: String| v@), x.2))
}

/// Los `<value>` de unos valores.
pub open spec fn valores_xml(vs: Seq<Seq<char>>) -> Seq<char>
    decreases vs.len(),
{
    if vs.len() == 0 {
        Seq::empty()
    } else {
        valores_xml(vs.drop_last()) + "<value>"@ + escapado(vs.last()) + "</value>\n"@
    }
}

/// El `<field>` de un campo.
pub open spec fn campo_xml(n: Seq<char>, vs: Seq<Seq<char>>) -> Seq<char> {
    "<field name=\""@ + escapado(n) + "\">\n"@ + valores_xml(vs) + "</field>\n"@
}

/// Los `<field>` de los campos que no son firmas, y cuántos son.
pub open spec fn campos_xml(c: Seq<CampoParaExportar>) -> (Seq<char>, nat)
    decreases c.len(),
{
    if c.len() == 0 {
        (Seq::empty(), 0)
    } else {
        let (antes, n) = campos_xml(c.drop_last());
        if c.last().2 { (antes, n) } else { (antes + campo_xml(c.last().0, c.last().1), n + 1) }
    }
}

/// Un XFDF de datos entero.
pub open spec fn documento_xfdf(nombre: Seq<char>, c: Seq<CampoParaExportar>) -> Seq<char> {
    "<?xml version=\"1.0\" encoding=\"UTF-8\"?>\n<xfdf xmlns=\"http://ns.adobe.com/xfdf/\" xml:space=\"preserve\">\n<f href=\""@
        + escapado(nombre) + "\"/>\n<fields>\n"@ + campos_xml(c).0 + "</fields>\n</xfdf>\n"@
}

/// **El nombre del documento** que va en el `<f href>`: el que manda la
/// interfaz o, si no manda ninguno, el de la copia de trabajo; en los dos
/// casos sin su carpeta (quien recibe el fichero no tiene por qué ver
/// rutas ni temporales).
pub fn nombre_de_documento(nombre: &Option<String>, work_path: &str) -> (r: String)
    ensures
        r@ == nombre_visible(match nombre {
            Some(n) => n@,
            None => work_path@,
        }),
{
    let ruta = match nombre {
        Some(n) => n.as_str(),
        None => work_path,
    };
    match nombre_de_fichero(ruta) {
        Some(n) => n,
        None => String::from_str(ruta),
    }
}

/// **Los datos del formulario en un XFDF**, como «Exportar datos» de
/// Acrobat: el nombre del documento en el `<f href>`, y un `<field>` con
/// sus `<value>` por cada campo que no es una firma. Devuelve el texto y
/// cuántos campos lleva; sin ninguno no hay nada que exportar.
pub fn xfdf_de_campos(nombre_documento: &str, campos: &Vec<(String, Vec<String>, bool)>) -> (r: Result<(String, u16), String>)
    requires
        campos_xml(para_exportar(campos@)).1 <= u16::MAX,
    ensures
        campos_xml(para_exportar(campos@)).1 == 0 ==> (r matches Err(m) && m@ == "Este documento no tiene campos de formulario"@),
        campos_xml(para_exportar(campos@)).1 > 0 ==> (r matches Ok((x, n)) && x@ == documento_xfdf(nombre_documento@, para_exportar(campos@))
            && n == campos_xml(para_exportar(campos@)).1),
{
    let ghost c = para_exportar(campos@);
    let mut out = String::from_str("<?xml version=\"1.0\" encoding=\"UTF-8\"?>\n<xfdf xmlns=\"http://ns.adobe.com/xfdf/\" xml:space=\"preserve\">\n<f href=\"");
    let nombre = escapa_xml(nombre_documento);
    out.append(nombre.as_str());
    out.append("\"/>\n<fields>\n");
    let ghost cabecera = out@;
    let mut n: u16 = 0;
    let mut i: usize = 0;
    while i < campos.len()
        invariant
            c == para_exportar(campos@),
            i <= campos.len(),
            campos_xml(c).1 <= u16::MAX,
            out@ == cabecera + campos_xml(c.take(i as int)).0,
            n == campos_xml(c.take(i as int)).1,
        decreases campos.len() - i,
    {
        assert(c.take(i + 1).drop_last() =~= c.take(i as int));
        proof {
            campos_xml_crece(c, i + 1);
        }
        if !campos[i].2 {
            let ghost antes = out@;
            out.append("<field name=\"");
            let e = escapa_xml(campos[i].0.as_str());
            out.append(e.as_str());
            out.append("\">\n");
            let vs = &campos[i].1;
            let ghost vv = vs@.map_values(|v: String| v@);
            let mut j: usize = 0;
            let ghost medio = out@;
            while j < vs.len()
                invariant
                    vv == vs@.map_values(|v: String| v@),
                    j <= vs.len(),
                    out@ == medio + valores_xml(vv.take(j as int)),
                decreases vs.len() - j,
            {
                assert(vv.take(j + 1).drop_last() =~= vv.take(j as int));
                out.append("<value>");
                let ev = escapa_xml(vs[j].as_str());
                out.append(ev.as_str());
                out.append("</value>\n");
                j = j + 1;
            }
            assert(vv.take(vs.len() as int) =~= vv);
            out.append("</field>\n");
            assert(out@ =~= antes + campo_xml(c[i as int].0, c[i as int].1));
            n = n + 1;
        }
        i = i + 1;
    }
    assert(c.take(campos.len() as int) =~= c);
    out.append("</fields>\n</xfdf>\n");
    if n == 0 {
        Err(String::from_str("Este documento no tiene campos de formulario"))
    } else {
        Ok((out, n))
    }
}

/// **Cada valor de un campo va en su propio `<value>`, en su orden**: los
/// `<value>` de unos valores seguidos de otros son los de los primeros
/// seguidos de los de los segundos, y un solo valor da un solo `<value>`
/// con ese valor escrito para XML. Ninguno se pierde ni se repite.
pub proof fn ley_valores_xml(a: Seq<Seq<char>>, b: Seq<Seq<char>>, v: Seq<char>)
    ensures
        valores_xml(a + b) == valores_xml(a) + valores_xml(b),
        valores_xml(seq![v]) == "<value>"@ + escapado(v) + "</value>\n"@,
        valores_xml(Seq::<Seq<char>>::empty()) == Seq::<char>::empty(),
    decreases b.len(),
{
    if b.len() == 0 {
        assert(a + b =~= a);
    } else {
        ley_valores_xml(a, b.drop_last(), v);
        assert((a + b).drop_last() =~= a + b.drop_last());
        assert((a + b).last() == b.last());
    }
    assert(seq![v].drop_last() =~= Seq::<Seq<char>>::empty());
    assert(seq![v].last() == v);
    assert(valores_xml(seq![v]) == valores_xml(Seq::<Seq<char>>::empty()) + "<value>"@ + escapado(v) + "</value>\n"@);
    assert(Seq::<char>::empty() + "<value>"@ =~= "<value>"@);
}

/// **Lo escrito para XML se parte como el texto**: escribir un texto
/// seguido de otro es escribir el primero y luego el segundo, y cada
/// carácter que no es uno de los cinco reservados queda tal cual.
pub proof fn ley_escapado(a: Seq<char>, b: Seq<char>, c: char)
    ensures
        escapado(a + b) == escapado(a) + escapado(b),
        escapado(seq![c]) == caracter_xml(c),
        !(c == '&' || c == '<' || c == '>' || c == '"' || c == '\'') ==> escapado(seq![c]) == seq![c],
    decreases b.len(),
{
    if b.len() == 0 {
        assert(a + b =~= a);
    } else {
        ley_escapado(a, b.drop_last(), c);
        assert((a + b).drop_last() =~= a + b.drop_last());
        assert((a + b).last() == b.last());
    }
    assert(seq![c].drop_last() =~= Seq::<char>::empty());
    assert(seq![c].last() == c);
    assert(escapado(seq![c]) == escapado(Seq::<char>::empty()) + caracter_xml(c));
    assert(Seq::<char>::empty() + caracter_xml(c) =~= caracter_xml(c));
}

/// **Cada campo que no es una firma sale una vez, en su orden, y se
/// cuenta**: los `<field>` de unos campos seguidos de otros son los de los
/// primeros seguidos de los de los segundos; un campo solo da su `<field>`
/// si no es una firma, y nada si lo es; y la cuenta es la de los campos
/// que no son firmas.
pub proof fn ley_campos_xml(a: Seq<CampoParaExportar>, b: Seq<CampoParaExportar>, x: CampoParaExportar)
    ensures
        campos_xml(a + b).0 == campos_xml(a).0 + campos_xml(b).0,
        campos_xml(a + b).1 == campos_xml(a).1 + campos_xml(b).1,
        campos_xml(seq![x]) == (if x.2 { (Seq::<char>::empty(), 0nat) } else { (campo_xml(x.0, x.1), 1nat) }),
        campos_xml(a).1 == a.filter(|c: CampoParaExportar| !c.2).len(),
    decreases a.len() + b.len(),
{
    if b.len() == 0 {
        assert(a + b =~= a);
    } else {
        ley_campos_xml(a, b.drop_last(), x);
        assert((a + b).drop_last() =~= a + b.drop_last());
        assert((a + b).last() == b.last());
    }
    assert(seq![x].drop_last() =~= Seq::<CampoParaExportar>::empty());
    if a.len() > 0 {
        ley_campos_xml(a.drop_last(), Seq::empty(), x);
        reveal(Seq::filter);
    } else {
        reveal(Seq::filter);
    }
}

/// Con más campos no hay menos `<field>`.
proof fn campos_xml_crece(c: Seq<CampoParaExportar>, k: int)
    requires
        0 <= k <= c.len(),
    ensures
        campos_xml(c.take(k)).1 <= campos_xml(c).1,
    decreases c.len() - k,
{
    if k < c.len() {
        campos_xml_crece(c, k + 1);
        assert(c.take(k + 1).drop_last() =~= c.take(k));
    } else {
        assert(c.take(k) =~= c);
    }
}

// ---------------------------------------------------------------------
// El reparto al importar

/// Lo que ha pasado al importar unas respuestas: cuántos campos del
/// documento han recibido su valor y cuántos de los que venían en el
/// fichero no existen en él (o son firmas, que no se rellenan).
#[derive(PartialEq, Eq, Structural, Clone, Copy, Debug)]
pub struct ImportacionFormulario {
    pub rellenados: u16,
    pub sin_campo: u16,
}

/// El campo que se llama `n`: el último con ese nombre, si lo hay.
pub open spec fn campo_llamado(campos: Seq<(Seq<char>, Referencia)>, n: Seq<char>) -> Option<Referencia>
    decreases campos.len(),
{
    if campos.len() == 0 {
        None
    } else if campos.last().0 == n {
        Some(campos.last().1)
    } else {
        campo_llamado(campos.drop_last(), n)
    }
}

/// Dónde va un dato: al campo que se llama como él, salvo que no lo haya o
/// sea una firma.
pub open spec fn destino(campos: Seq<(Seq<char>, Referencia)>, firmas: Seq<Referencia>, n: Seq<char>) -> Option<Referencia> {
    match campo_llamado(campos, n) {
        Some(id) => if firmas.contains(id) { None } else { Some(id) },
        None => None,
    }
}

/// El reparto de unos datos: qué se escribe en cada campo y cuántos se
/// quedan sin sitio.
pub open spec fn reparto(datos: Seq<CampoLeido>, campos: Seq<(Seq<char>, Referencia)>, firmas: Seq<Referencia>)
    -> (Seq<(Referencia, Seq<Seq<char>>)>, nat)
    decreases datos.len(),
{
    if datos.len() == 0 {
        (Seq::empty(), 0)
    } else {
        let (hechos, fuera) = reparto(datos.drop_last(), campos, firmas);
        match destino(campos, firmas, datos.last().0) {
            Some(id) => (hechos.push((id, datos.last().1)), fuera),
            None => (hechos, fuera + 1),
        }
    }
}

pub open spec fn campos_con_nombre(c: Seq<(String, Referencia)>) -> Seq<(Seq<char>, Referencia)> {
    c.map_values(|x: (String, Referencia)| (x.0@, x.1))
}

pub open spec fn escrituras(e: Seq<(Referencia, Vec<String>)>) -> Seq<(Referencia, Seq<Seq<char>>)> {
    e.map_values(|x: (Referencia, Vec<String>)| (x.0, x.1@.map_values(|s: String| s@)))
}

fn campo_llamado_exec(campos: &Vec<(String, Referencia)>, n: &str) -> (r: Option<Referencia>)
    ensures
        r == campo_llamado(campos_con_nombre(campos@), n@),
{
    let ghost c = campos_con_nombre(campos@);
    let mut i: usize = campos.len();
    assert(c.take(i as int) =~= c);
    while i > 0
        invariant
            c == campos_con_nombre(campos@),
            i <= campos.len(),
            campo_llamado(c, n@) == campo_llamado(c.take(i as int), n@),
        decreases i,
    {
        assert(c.take(i as int).drop_last() =~= c.take(i - 1));
        if mismo_texto(campos[i - 1].0.as_str(), n) {
            return Some(campos[i - 1].1);
        }
        i = i - 1;
    }
    None
}

fn entre_firmas(firmas: &Vec<Referencia>, id: Referencia) -> (r: bool)
    ensures
        r == firmas@.contains(id),
{
    let mut i: usize = 0;
    while i < firmas.len()
        invariant
            i <= firmas.len(),
            forall|k: int| 0 <= k < i ==> firmas@[k] != id,
        decreases firmas.len() - i,
    {
        if firmas[i].0 == id.0 && firmas[i].1 == id.1 {
            return true;
        }
        i = i + 1;
    }
    false
}

/// **Qué se rellena al importar**: cada dato va al campo del documento que
/// se llama como él (el último, si hay dos) y no crea ninguno; los que no
/// tienen campo, o tienen uno de firma, se cuentan aparte. Devuelve las
/// escrituras, en el orden de los datos, y el informe.
pub fn reparte_datos(datos: &Vec<(String, Vec<String>)>, campos: &Vec<(String, Referencia)>, firmas: &Vec<Referencia>)
    -> (r: (Vec<(Referencia, Vec<String>)>, ImportacionFormulario))
    requires
        reparto(campos_vistos(datos@), campos_con_nombre(campos@), firmas@).0.len() <= u16::MAX,
        reparto(campos_vistos(datos@), campos_con_nombre(campos@), firmas@).1 <= u16::MAX,
    ensures
        escrituras(r.0@) == reparto(campos_vistos(datos@), campos_con_nombre(campos@), firmas@).0,
        r.1.rellenados == r.0.len(),
        r.1.sin_campo == reparto(campos_vistos(datos@), campos_con_nombre(campos@), firmas@).1,
{
    let ghost d = campos_vistos(datos@);
    let ghost c = campos_con_nombre(campos@);
    let mut hechos: Vec<(Referencia, Vec<String>)> = Vec::new();
    let mut fuera: u16 = 0;
    let mut i: usize = 0;
    while i < datos.len()
        invariant
            d == campos_vistos(datos@),
            c == campos_con_nombre(campos@),
            i <= datos.len(),
            reparto(d, c, firmas@).0.len() <= u16::MAX,
            reparto(d, c, firmas@).1 <= u16::MAX,
            escrituras(hechos@) == reparto(d.take(i as int), c, firmas@).0,
            fuera == reparto(d.take(i as int), c, firmas@).1,
            hechos.len() + fuera == i,
        decreases datos.len() - i,
    {
        assert(d.take(i + 1).drop_last() =~= d.take(i as int));
        proof {
            reparto_crece(d, c, firmas@, i + 1, d.len() as int);
            assert(d.take(d.len() as int) =~= d);
        }
        let n = &datos[i].0;
        match campo_llamado_exec(campos, n.as_str()) {
            Some(id) => {
                if entre_firmas(firmas, id) {
                    fuera = fuera + 1;
                } else {
                    let ghost antes = hechos@;
                    hechos.push((id, copia_valores(&datos[i].1)));
                    assert(escrituras(hechos@) =~= escrituras(antes).push((id, d[i as int].1)));
                }
            },
            None => {
                fuera = fuera + 1;
            },
        }
        i = i + 1;
    }
    assert(d.take(datos.len() as int) =~= d);
    let rellenados = hechos.len() as u16;
    (hechos, ImportacionFormulario { rellenados, sin_campo: fuera })
}

/// ¿Caben en el informe las cuentas del reparto? Cada una se lleva en
/// 16 bits.
pub fn cabe_el_reparto(datos: &Vec<(String, Vec<String>)>, campos: &Vec<(String, Referencia)>, firmas: &Vec<Referencia>)
    -> (r: bool)
    ensures
        r == (reparto(campos_vistos(datos@), campos_con_nombre(campos@), firmas@).0.len() <= u16::MAX
            && reparto(campos_vistos(datos@), campos_con_nombre(campos@), firmas@).1 <= u16::MAX),
{
    let ghost d = campos_vistos(datos@);
    let ghost c = campos_con_nombre(campos@);
    let mut dentro: usize = 0;
    let mut fuera: usize = 0;
    let mut i: usize = 0;
    while i < datos.len()
        invariant
            d == campos_vistos(datos@),
            c == campos_con_nombre(campos@),
            i <= datos.len(),
            dentro == reparto(d.take(i as int), c, firmas@).0.len(),
            fuera == reparto(d.take(i as int), c, firmas@).1,
            dentro + fuera == i,
        decreases datos.len() - i,
    {
        assert(d.take(i + 1).drop_last() =~= d.take(i as int));
        match campo_llamado_exec(campos, datos[i].0.as_str()) {
            Some(id) => {
                if entre_firmas(firmas, id) {
                    fuera = fuera + 1;
                } else {
                    dentro = dentro + 1;
                }
            },
            None => {
                fuera = fuera + 1;
            },
        }
        i = i + 1;
    }
    assert(d.take(datos.len() as int) =~= d);
    dentro <= 65535 && fuera <= 65535
}

/// Con más datos no hay menos escrituras ni menos datos sin campo.
proof fn reparto_crece(d: Seq<CampoLeido>, c: Seq<(Seq<char>, Referencia)>, f: Seq<Referencia>, i: int, j: int)
    requires
        0 <= i <= j <= d.len(),
    ensures
        reparto(d.take(i), c, f).0.len() <= reparto(d.take(j), c, f).0.len(),
        reparto(d.take(i), c, f).1 <= reparto(d.take(j), c, f).1,
    decreases j - i,
{
    if i < j {
        reparto_crece(d, c, f, i, j - 1);
        assert(d.take(j).drop_last() =~= d.take(j - 1));
    }
}

/// Importar no crea campos: todo lo que se escribe va a un campo que ya
/// estaba en el documento y no es una firma, y cada dato o se escribe o se
/// cuenta como sin campo.
pub proof fn ley_importar_no_crea_campos(datos: Seq<CampoLeido>, campos: Seq<(Seq<char>, Referencia)>, firmas: Seq<Referencia>)
    ensures
        forall|k: int| 0 <= k < reparto(datos, campos, firmas).0.len() ==> {
            let id = #[trigger] reparto(datos, campos, firmas).0[k].0;
            &&& exists|j: int| 0 <= j < campos.len() && campos[j].1 == id
            &&& !firmas.contains(id)
        },
        reparto(datos, campos, firmas).0.len() + reparto(datos, campos, firmas).1 == datos.len(),
    decreases datos.len(),
{
    if datos.len() > 0 {
        ley_importar_no_crea_campos(datos.drop_last(), campos, firmas);
        match campo_llamado(campos, datos.last().0) {
            Some(id) => {
                campo_llamado_esta(campos, datos.last().0);
            },
            None => {},
        }
    }
}

/// El campo que se llama `n`, si lo hay, es uno de los campos.
proof fn campo_llamado_esta(campos: Seq<(Seq<char>, Referencia)>, n: Seq<char>)
    ensures
        campo_llamado(campos, n) matches Some(id) ==> exists|j: int| 0 <= j < campos.len() && campos[j].1 == id,
    decreases campos.len(),
{
    if campos.len() > 0 && campos.last().0 != n {
        campo_llamado_esta(campos.drop_last(), n);
        if let Some(id) = campo_llamado(campos, n) {
            let j = choose|j: int| 0 <= j < campos.drop_last().len() && campos.drop_last()[j].1 == id;
            assert(campos[j].1 == id);
        }
    } else if campos.len() > 0 {
        assert(campos[campos.len() - 1].1 == campos.last().1);
    }
}

} // verus!

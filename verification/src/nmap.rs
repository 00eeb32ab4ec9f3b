//! Reading Nmap's XML reports and inferring device types.
//!
//! The XML text is tokenized by `quick_xml`; each token is turned into an
//! `EventoXml`, which keeps element names and attribute keys and values as
//! raw bytes. What the library extracts from a report is a fold over those
//! events (`plegar_escaneo`, `plegar_descubrimiento`), stated here and
//! proved of the code that walks them.

use vstd::prelude::*;
use vstd::string::StringSliceAdditionalSpecFns;
use quick_xml::events::Event::{Empty, End, Eof, Start};
use quick_xml::Reader;
use crate::texto::{
    bytes_iguales, caracteres, contiene, contiene_exec, es_ascii, iguales, igual_sin_mayusculas,
    minuscula_ascii,
    minusculas, minusculas_exec,
    natural_de, natural_de_exec, lema_valor_no_negativo, cifras_sin_signo, segundo_trozo, segundo_trozo_exec, termina_con, termina_con_exec,
    utf8_con_reemplazo,
    utf8_con_reemplazo_exec, lista_separada, lista_separada_exec, vistas,
};

verus! {

use EventoXml::{Cierre, Error, Etiqueta, FinDocumento, Otro};

// ---------------------------------------------------------------------
// XML events
// ---------------------------------------------------------------------

/// An attribute of an element, as raw bytes: its key, then its value.
pub struct Atributo(pub Vec<u8>, pub Vec<u8>);

/// One token of an XML document.
pub enum EventoXml {
    /// A start tag (`vacia == false`) or an empty-element tag (`vacia == true`).
    Etiqueta { vacia: bool, nombre: Vec<u8>, atributos: Vec<Atributo> },
    /// An end tag, with the element's name.
    Cierre(Vec<u8>),
    /// The end of the document.
    FinDocumento,
    /// The tokenizer refused the input at this point.
    Error,
    /// Text, comments, declarations and the like.
    Otro,
}

/// The events that `quick_xml` gives for the text `xml`, read with
/// `Reader::from_str` and `trim_text(true)`, up to and including the end of
/// the document or the first error.
pub uninterp spec fn eventos_xml(xml: Seq<char>) -> Seq<EventoXml>;

/// The events after which a document is not read any further.
pub open spec fn es_final(ev: EventoXml) -> bool {
    ev is FinDocumento || ev is Error
}

/// A whole reading: events up to the first end of document or error, which
/// is the last one.
pub open spec fn lectura_completa(evs: Seq<EventoXml>) -> bool {
    &&& evs.len() > 0
    &&& es_final(evs.last())
    &&& forall|i: int| 0 <= i < evs.len() - 1 ==> !es_final(#[trigger] evs[i])
}

/// Reads `xml` with `quick_xml`: `Reader::from_str`, `trim_text(true)`, then
/// `read_event` until the end of the document or the first error (which is
/// then the last event), each event converted (an attribute that `quick_xml` cannot read is left out).
/// A reader over a text starts afresh, so the events depend on the text
/// alone.
#[verifier::external_body]
fn leer_eventos(xml: &str) -> (r: Vec<EventoXml>)
    ensures
        r@ == eventos_xml(xml@),
        lectura_completa(r@),
{
    let mut lector = Reader::from_str(xml);
    lector.trim_text(true);
    let mut eventos = vec![];
    while !matches!(eventos.last(), Some(FinDocumento | Error)) {
        let ev = lector.read_event();
        let vacia = matches!(ev, Ok(Empty(_)));
        eventos.push(match ev {
            Ok(Start(e) | Empty(e)) => Etiqueta { vacia, nombre: e.name().0.to_vec(), atributos: e.attributes().flatten().map(|a| Atributo(a.key.0.to_vec(), a.value.to_vec())).collect() },
            Ok(End(e)) => Cierre(e.name().0.to_vec()),
            Ok(Eof) => FinDocumento,
            Err(_) => Error,
            _ => Otro,
        });
    }
    eventos
}

// ---------------------------------------------------------------------
// Attributes
// ---------------------------------------------------------------------

/// The value (decoded as UTF-8, invalid sequences replaced) of the last
/// attribute whose key is `k`.
pub open spec fn ultimo_valor(a: Seq<Atributo>, k: Seq<u8>) -> Option<Seq<char>>
    decreases a.len(),
{
    if a.len() == 0 {
        None
    } else if a.last().0@ == k {
        Some(utf8_con_reemplazo(a.last().1@))
    } else {
        ultimo_valor(a.drop_last(), k)
    }
}

/// The value of the first attribute whose key is `k`.
pub open spec fn primer_valor(a: Seq<Atributo>, k: Seq<u8>) -> Option<Seq<char>>
    decreases a.len(),
{
    if a.len() == 0 {
        None
    } else {
        let r = primer_valor(a.drop_last(), k);
        if r is Some {
            r
        } else if a.last().0@ == k {
            Some(utf8_con_reemplazo(a.last().1@))
        } else {
            None
        }
    }
}

/// The value of the last attribute whose key is `k`, or the empty text.
pub open spec fn valor_o_vacio(a: Seq<Atributo>, k: Seq<u8>) -> Seq<char> {
    match ultimo_valor(a, k) {
        Some(v) => v,
        None => Seq::<char>::empty(),
    }
}

/// `o` unless `n` is present.
pub open spec fn o_bien(n: Option<Seq<char>>, o: Option<Seq<char>>) -> Option<Seq<char>> {
    match n {
        Some(v) => Some(v),
        None => o,
    }
}

fn ultimo_valor_exec(a: &Vec<Atributo>, clave: &str) -> (r: Option<String>)
    ensures
        r.deep_view() == ultimo_valor(a@, clave.spec_bytes()),
{
    let mut r: Option<String> = None;
    let mut i: usize = 0;
    assert(a@.take(0) =~= Seq::<Atributo>::empty());
    while i < a.len()
        invariant
            i <= a@.len(),
            r.deep_view() == ultimo_valor(a@.take(i as int), clave.spec_bytes()),
        decreases a@.len() - i,
    {
        assert(a@.take(i + 1).drop_last() =~= a@.take(i as int));
        assert(a@.take(i + 1).last() == a@[i as int]);
        if bytes_iguales(a[i].0.as_slice(), clave) {
            r = Some(utf8_con_reemplazo_exec(a[i].1.as_slice()));
        }
        i = i + 1;
    }
    assert(a@.take(a@.len() as int) =~= a@);
    r
}

fn primer_valor_exec(a: &Vec<Atributo>, clave: &str) -> (r: Option<String>)
    ensures
        r.deep_view() == primer_valor(a@, clave.spec_bytes()),
{
    let mut r: Option<String> = None;
    let mut i: usize = 0;
    assert(a@.take(0) =~= Seq::<Atributo>::empty());
    while i < a.len()
        invariant
            i <= a@.len(),
            r.deep_view() == primer_valor(a@.take(i as int), clave.spec_bytes()),
        decreases a@.len() - i,
    {
        assert(a@.take(i + 1).drop_last() =~= a@.take(i as int));
        assert(a@.take(i + 1).last() == a@[i as int]);
        if r.is_none() && bytes_iguales(a[i].0.as_slice(), clave) {
            r = Some(utf8_con_reemplazo_exec(a[i].1.as_slice()));
        }
        i = i + 1;
    }
    assert(a@.take(a@.len() as int) =~= a@);
    r
}

fn valor_o_vacio_exec(a: &Vec<Atributo>, clave: &str) -> (r: String)
    ensures
        r@ == valor_o_vacio(a@, clave.spec_bytes()),
{
    match ultimo_valor_exec(a, clave) {
        Some(v) => v,
        None => String::new(),
    }
}


// ---------------------------------------------------------------------
// Port scan reports
// ---------------------------------------------------------------------

/// A port listed in a scan report.
pub struct PuertoNmap {
    pub protocolo: String,
    pub puerto: String,
    pub estado: String,
    pub servicio: String,
}

/// The view of a `PuertoNmap`.
pub struct PuertoVisto {
    pub protocolo: Seq<char>,
    pub puerto: Seq<char>,
    pub estado: Seq<char>,
    pub servicio: Seq<char>,
}

impl PuertoNmap {
    pub open spec fn vista(&self) -> PuertoVisto {
        PuertoVisto {
            protocolo: self.protocolo@,
            puerto: self.puerto@,
            estado: self.estado@,
            servicio: self.servicio@,
        }
    }
}

pub open spec fn vistas_puertos(v: Seq<PuertoNmap>) -> Seq<PuertoVisto> {
    v.map_values(|p: PuertoNmap| p.vista())
}

/// What has been gathered from a scan report so far.
pub struct EstadoEscaneo {
    pub puertos: Seq<PuertoVisto>,
    pub so_detectado: Option<Seq<char>>,
    pub estado_host: Option<Seq<char>>,
    pub mac: Option<Seq<char>>,
    pub vendor: Option<Seq<char>>,
    pub hostname: Option<Seq<char>>,
    /// Protocol and port number of the `port` element being read.
    pub puerto_actual: Option<(Seq<char>, Seq<char>)>,
    /// State of the `port` element being read.
    pub estado_actual: Option<Seq<char>>,
    /// Service name of the `port` element being read (empty until a
    /// `service` names one).
    pub servicio_actual: Seq<char>,
}

pub open spec fn escaneo_inicial() -> EstadoEscaneo {
    EstadoEscaneo {
        puertos: Seq::<PuertoVisto>::empty(),
        so_detectado: None,
        estado_host: None,
        mac: None,
        vendor: None,
        hostname: None,
        puerto_actual: None,
        estado_actual: None,
        servicio_actual: Seq::<char>::empty(),
    }
}

/// The state of a port that is listed.
pub open spec fn estado_abierto() -> Seq<char> {
    "open"@
}

/// What one start or empty-element tag adds to a scan report:
/// - the first `status` with a `state` gives the host state;
/// - an `address` of type `mac` gives the MAC address, and its vendor when
///   it is not empty;
/// - the first `hostname` with a `name` gives the host name;
/// - a `port` starts a new port (protocol and number) with no state and no
///   service yet;
/// - a `state` inside a port gives the port state;
/// - a `service` inside a port gives the service name (empty when absent);
/// - the first `osmatch` with a `name` gives the operating system.
///
/// Where an element has an attribute more than once, the last one counts.
pub open spec fn etiqueta_escaneo(st: EstadoEscaneo, n: Seq<u8>, a: Seq<Atributo>) -> EstadoEscaneo {
    if n == "status".spec_bytes() && st.estado_host is None {
        EstadoEscaneo { estado_host: ultimo_valor(a, "state".spec_bytes()), ..st }
    } else if n == "address".spec_bytes() {
        if valor_o_vacio(a, "addrtype".spec_bytes()) == "mac"@ {
            let vend = valor_o_vacio(a, "vendor".spec_bytes());
            EstadoEscaneo {
                mac: Some(valor_o_vacio(a, "addr".spec_bytes())),
                vendor: if vend.len() > 0 { Some(vend) } else { st.vendor },
                ..st
            }
        } else {
            st
        }
    } else if n == "hostname".spec_bytes() && st.hostname is None {
        EstadoEscaneo { hostname: ultimo_valor(a, "name".spec_bytes()), ..st }
    } else if n == "port".spec_bytes() {
        EstadoEscaneo {
            puerto_actual: Some(
                (valor_o_vacio(a, "protocol".spec_bytes()), valor_o_vacio(a, "portid".spec_bytes())),
            ),
            estado_actual: None,
            servicio_actual: Seq::<char>::empty(),
            ..st
        }
    } else if n == "state".spec_bytes() && st.puerto_actual is Some {
        EstadoEscaneo {
            estado_actual: o_bien(ultimo_valor(a, "state".spec_bytes()), st.estado_actual),
            ..st
        }
    } else if n == "service".spec_bytes() && st.puerto_actual is Some {
        EstadoEscaneo { servicio_actual: valor_o_vacio(a, "name".spec_bytes()), ..st }
    } else if n == "osmatch".spec_bytes() && st.so_detectado is None {
        EstadoEscaneo { so_detectado: ultimo_valor(a, "name".spec_bytes()), ..st }
    } else {
        st
    }
}

/// What the end of an element does to a scan report: the end of a `port`
/// lists it when its state is `open` (with its service, empty when it has
/// none), and closes it.
pub open spec fn cierre_escaneo(st: EstadoEscaneo, n: Seq<u8>) -> EstadoEscaneo {
    match st.puerto_actual {
        Some((protocolo, puerto)) => if n == "port".spec_bytes() {
            EstadoEscaneo {
                puertos: if st.estado_actual == Some(estado_abierto()) {
                    st.puertos.push(
                        PuertoVisto {
                            protocolo: protocolo,
                            puerto: puerto,
                            estado: estado_abierto(),
                            servicio: st.servicio_actual,
                        },
                    )
                } else {
                    st.puertos
                },
                puerto_actual: None,
                estado_actual: None,
                servicio_actual: Seq::<char>::empty(),
                ..st
            }
        } else {
            st
        },
        None => st,
    }
}

/// What one event adds to a scan report: an empty-element tag is a start
/// tag followed by its end tag; text and the like change nothing, and
/// neither does a reading error.
pub open spec fn paso_escaneo(st: EstadoEscaneo, ev: EventoXml) -> EstadoEscaneo {
    match ev {
        EventoXml::Etiqueta { vacia, nombre, atributos } => {
            let s = etiqueta_escaneo(st, nombre@, atributos@);
            if vacia {
                cierre_escaneo(s, nombre@)
            } else {
                s
            }
        },
        EventoXml::Cierre(nombre) => cierre_escaneo(st, nombre@),
        _ => st,
    }
}

/// What a sequence of events says of a scanned host.
pub open spec fn plegar_escaneo(evs: Seq<EventoXml>) -> EstadoEscaneo
    decreases evs.len(),
{
    if evs.len() == 0 {
        escaneo_inicial()
    } else {
        paso_escaneo(plegar_escaneo(evs.drop_last()), evs.last())
    }
}

/// The scan state as the code keeps it.
struct Escaneo {
    puertos: Vec<PuertoNmap>,
    so_detectado: Option<String>,
    estado_host: Option<String>,
    mac: Option<String>,
    vendor: Option<String>,
    hostname: Option<String>,
    puerto_actual: Option<(String, String)>,
    estado_actual: Option<String>,
    servicio_actual: String,
}

impl Escaneo {
    spec fn vista(&self) -> EstadoEscaneo {
        EstadoEscaneo {
            puertos: vistas_puertos(self.puertos@),
            so_detectado: self.so_detectado.deep_view(),
            estado_host: self.estado_host.deep_view(),
            mac: self.mac.deep_view(),
            vendor: self.vendor.deep_view(),
            hostname: self.hostname.deep_view(),
            puerto_actual: match self.puerto_actual {
                Some((p, n)) => Some((p@, n@)),
                None => None,
            },
            estado_actual: self.estado_actual.deep_view(),
            servicio_actual: self.servicio_actual@,
        }
    }

    fn etiqueta(&mut self, nombre: &Vec<u8>, a: &Vec<Atributo>)
        ensures
            final(self).vista() == etiqueta_escaneo(old(self).vista(), nombre@, a@),
    {
        let n = nombre.as_slice();
        if bytes_iguales(n, "status") && self.estado_host.is_none() {
            self.estado_host = ultimo_valor_exec(a, "state");
        } else if bytes_iguales(n, "address") {
            let tipo = valor_o_vacio_exec(a, "addrtype");
            let mac = "mac";
            if iguales(tipo.as_str(), mac) {
                let vend = valor_o_vacio_exec(a, "vendor");
                self.mac = Some(valor_o_vacio_exec(a, "addr"));
                if vend.unicode_len() > 0 {
                    self.vendor = Some(vend);
                }
            }
        } else if bytes_iguales(n, "hostname") && self.hostname.is_none() {
            self.hostname = ultimo_valor_exec(a, "name");
        } else if bytes_iguales(n, "port") {
            let protocolo = valor_o_vacio_exec(a, "protocol");
            let portid = valor_o_vacio_exec(a, "portid");
            self.puerto_actual = Some((protocolo, portid));
            self.estado_actual = None;
            self.servicio_actual = String::new();
        } else if bytes_iguales(n, "state") && self.puerto_actual.is_some() {
            if let Some(v) = ultimo_valor_exec(a, "state") {
                self.estado_actual = Some(v);
            }
        } else if bytes_iguales(n, "service") && self.puerto_actual.is_some() {
            self.servicio_actual = valor_o_vacio_exec(a, "name");
        } else if bytes_iguales(n, "osmatch") && self.so_detectado.is_none() {
            self.so_detectado = ultimo_valor_exec(a, "name");
        }
    }

    fn cierre(&mut self, nombre: &Vec<u8>)
        ensures
            final(self).vista() == cierre_escaneo(old(self).vista(), nombre@),
    {
        if bytes_iguales(nombre.as_slice(), "port") {
            if let Some((protocolo, portid)) = &self.puerto_actual {
                let abierto = match &self.estado_actual {
                    Some(e) => iguales(e.as_str(), "open"),
                    None => false,
                };
                if abierto {
                    let p = PuertoNmap {
                        protocolo: protocolo.clone(),
                        puerto: portid.clone(),
                        estado: String::from_str("open"),
                        servicio: self.servicio_actual.clone(),
                    };
                    let ghost v0 = self.puertos@;
                    self.puertos.push(p);
                    assert(vistas_puertos(self.puertos@) =~= vistas_puertos(v0).push(p.vista()));
                }
                self.puerto_actual = None;
                self.estado_actual = None;
                self.servicio_actual = String::new();
            }
        }
    }
}

/// What a sequence of events says of a scanned host.
fn plegar_escaneo_exec(eventos: &Vec<EventoXml>) -> (r: Escaneo)
    ensures
        r.vista() == plegar_escaneo(eventos@),
{
    let mut st = Escaneo {
        puertos: Vec::new(),
        so_detectado: None,
        estado_host: None,
        mac: None,
        vendor: None,
        hostname: None,
        puerto_actual: None,
        estado_actual: None,
        servicio_actual: String::new(),
    };
    assert(vistas_puertos(st.puertos@) =~= Seq::<PuertoVisto>::empty());
    let mut i: usize = 0;
    assert(eventos@.take(0) =~= Seq::<EventoXml>::empty());
    while i < eventos.len()
        invariant
            i <= eventos@.len(),
            st.vista() == plegar_escaneo(eventos@.take(i as int)),
        decreases eventos@.len() - i,
    {
        assert(eventos@.take(i + 1).drop_last() =~= eventos@.take(i as int));
        assert(eventos@.take(i + 1).last() == eventos@[i as int]);
        match &eventos[i] {
            EventoXml::Etiqueta { vacia, nombre, atributos } => {
                st.etiqueta(nombre, atributos);
                if *vacia {
                    st.cierre(nombre);
                }
            },
            EventoXml::Cierre(nombre) => {
                st.cierre(nombre);
            },
            _ => {},
        }
        i = i + 1;
    }
    assert(eventos@.take(eventos@.len() as int) =~= eventos@);
    st
}


// ---------------------------------------------------------------------
// Host discovery reports
// ---------------------------------------------------------------------

/// A host listed in a discovery (ping sweep) report.
pub struct HostDescubierto {
    pub ip: String,
    pub hostname: Option<String>,
    pub mac: Option<String>,
    pub vendor: Option<String>,
    pub estado: Option<String>,
}

/// The view of a `HostDescubierto`.
pub struct HostVisto {
    pub ip: Seq<char>,
    pub hostname: Option<Seq<char>>,
    pub mac: Option<Seq<char>>,
    pub vendor: Option<Seq<char>>,
    pub estado: Option<Seq<char>>,
}

impl HostDescubierto {
    pub open spec fn vista(&self) -> HostVisto {
        HostVisto {
            ip: self.ip@,
            hostname: self.hostname.deep_view(),
            mac: self.mac.deep_view(),
            vendor: self.vendor.deep_view(),
            estado: self.estado.deep_view(),
        }
    }
}

pub open spec fn vistas_hosts(v: Seq<HostDescubierto>) -> Seq<HostVisto> {
    v.map_values(|h: HostDescubierto| h.vista())
}

/// What has been gathered from a discovery report so far.
pub struct EstadoDescubrimiento {
    pub hosts: Seq<HostVisto>,
    pub ip: Option<Seq<char>>,
    pub hostname: Option<Seq<char>>,
    pub mac: Option<Seq<char>>,
    pub vendor: Option<Seq<char>>,
    pub estado: Option<Seq<char>>,
    /// Inside a `host` element.
    pub dentro: bool,
}

pub open spec fn descubrimiento_inicial() -> EstadoDescubrimiento {
    EstadoDescubrimiento {
        hosts: Seq::<HostVisto>::empty(),
        ip: None,
        hostname: None,
        mac: None,
        vendor: None,
        estado: None,
        dentro: false,
    }
}

/// What one tag inside a `host` element adds:
/// - `status`: the `state` gives the host state;
/// - `address`: the first of type `ipv4` gives the IP; one of type `mac`
///   gives the MAC and, when not empty, the vendor;
/// - `hostname`: the first `name` seen in the host gives its name.
pub open spec fn etiqueta_descubrimiento(
    st: EstadoDescubrimiento,
    n: Seq<u8>,
    a: Seq<Atributo>,
) -> EstadoDescubrimiento {
    if n == "status".spec_bytes() {
        EstadoDescubrimiento { estado: o_bien(ultimo_valor(a, "state".spec_bytes()), st.estado), ..st }
    } else if n == "address".spec_bytes() {
        let tipo = valor_o_vacio(a, "addrtype".spec_bytes());
        let valor = valor_o_vacio(a, "addr".spec_bytes());
        if tipo == "ipv4"@ && st.ip is None {
            EstadoDescubrimiento { ip: Some(valor), ..st }
        } else if tipo == "mac"@ {
            let vend = valor_o_vacio(a, "vendor".spec_bytes());
            EstadoDescubrimiento {
                mac: Some(valor),
                vendor: if vend.len() > 0 { Some(vend) } else { st.vendor },
                ..st
            }
        } else {
            st
        }
    } else if n == "hostname".spec_bytes() {
        EstadoDescubrimiento {
            hostname: if st.hostname is None { primer_valor(a, "name".spec_bytes()) } else { st.hostname },
            ..st
        }
    } else {
        st
    }
}

/// What one event adds to a discovery report: a `host` start tag opens a
/// new host; its end tag closes it, keeping it when it had an IP; the tags
/// in between fill it in.
pub open spec fn paso_descubrimiento(st: EstadoDescubrimiento, ev: EventoXml) -> EstadoDescubrimiento {
    match ev {
        EventoXml::Etiqueta { vacia, nombre, atributos } => {
            if !vacia && nombre@ == "host".spec_bytes() {
                EstadoDescubrimiento {
                    ip: None,
                    hostname: None,
                    mac: None,
                    vendor: None,
                    estado: None,
                    dentro: true,
                    ..st
                }
            } else if st.dentro {
                etiqueta_descubrimiento(st, nombre@, atributos@)
            } else {
                st
            }
        },
        EventoXml::Cierre(nombre) => {
            if nombre@ == "host".spec_bytes() {
                match (st.dentro, st.ip) {
                    (true, Some(ip)) => EstadoDescubrimiento {
                        hosts: st.hosts.push(
                            HostVisto {
                                ip: ip,
                                hostname: st.hostname,
                                mac: st.mac,
                                vendor: st.vendor,
                                estado: st.estado,
                            },
                        ),
                        ip: None,
                        hostname: None,
                        mac: None,
                        vendor: None,
                        estado: None,
                        dentro: false,
                    },
                    _ => EstadoDescubrimiento { dentro: false, ..st },
                }
            } else {
                st
            }
        },
        _ => st,
    }
}

/// What a sequence of events says of the hosts of a network.
pub open spec fn plegar_descubrimiento(evs: Seq<EventoXml>) -> EstadoDescubrimiento
    decreases evs.len(),
{
    if evs.len() == 0 {
        descubrimiento_inicial()
    } else {
        paso_descubrimiento(plegar_descubrimiento(evs.drop_last()), evs.last())
    }
}

/// The discovery state as the code keeps it.
struct Descubrimiento {
    hosts: Vec<HostDescubierto>,
    ip: Option<String>,
    hostname: Option<String>,
    mac: Option<String>,
    vendor: Option<String>,
    estado: Option<String>,
    dentro: bool,
}

impl Descubrimiento {
    spec fn vista(&self) -> EstadoDescubrimiento {
        EstadoDescubrimiento {
            hosts: vistas_hosts(self.hosts@),
            ip: self.ip.deep_view(),
            hostname: self.hostname.deep_view(),
            mac: self.mac.deep_view(),
            vendor: self.vendor.deep_view(),
            estado: self.estado.deep_view(),
            dentro: self.dentro,
        }
    }

    fn etiqueta(&mut self, nombre: &Vec<u8>, a: &Vec<Atributo>)
        ensures
            final(self).vista() == etiqueta_descubrimiento(old(self).vista(), nombre@, a@),
    {
        let n = nombre.as_slice();
        if bytes_iguales(n, "status") {
            if let Some(v) = ultimo_valor_exec(a, "state") {
                self.estado = Some(v);
            }
        } else if bytes_iguales(n, "address") {
            let tipo = valor_o_vacio_exec(a, "addrtype");
            let valor = valor_o_vacio_exec(a, "addr");
            if iguales(tipo.as_str(), "ipv4") && self.ip.is_none() {
                self.ip = Some(valor);
            } else if iguales(tipo.as_str(), "mac") {
                let vend = valor_o_vacio_exec(a, "vendor");
                self.mac = Some(valor);
                if vend.unicode_len() > 0 {
                    self.vendor = Some(vend);
                }
            }
        } else if bytes_iguales(n, "hostname") {
            if self.hostname.is_none() {
                self.hostname = primer_valor_exec(a, "name");
            }
        }
    }

    fn paso(&mut self, ev: &EventoXml)
        ensures
            final(self).vista() == paso_descubrimiento(old(self).vista(), *ev),
    {
        match ev {
            EventoXml::Etiqueta { vacia, nombre, atributos } => {
                if !*vacia && bytes_iguales(nombre.as_slice(), "host") {
                    self.dentro = true;
                    self.ip = None;
                    self.hostname = None;
                    self.mac = None;
                    self.vendor = None;
                    self.estado = None;
                } else if self.dentro {
                    self.etiqueta(nombre, atributos);
                }
            },
            EventoXml::Cierre(nombre) => {
                if bytes_iguales(nombre.as_slice(), "host") {
                    if self.dentro {
                        if let Some(ip) = self.ip.take() {
                            let h = HostDescubierto {
                                ip,
                                hostname: self.hostname.take(),
                                mac: self.mac.take(),
                                vendor: self.vendor.take(),
                                estado: self.estado.take(),
                            };
                            let ghost v0 = self.hosts@;
                            self.hosts.push(h);
                            assert(vistas_hosts(self.hosts@) =~= vistas_hosts(v0).push(h.vista()));
                        }
                    }
                    self.dentro = false;
                }
            },
            _ => {},
        }
    }
}

fn plegar_descubrimiento_exec(eventos: &Vec<EventoXml>) -> (r: Vec<HostDescubierto>)
    ensures
        vistas_hosts(r@) == plegar_descubrimiento(eventos@).hosts,
{
    let mut st = Descubrimiento {
        hosts: Vec::new(),
        ip: None,
        hostname: None,
        mac: None,
        vendor: None,
        estado: None,
        dentro: false,
    };
    assert(vistas_hosts(st.hosts@) =~= Seq::<HostVisto>::empty());
    let mut i: usize = 0;
    assert(eventos@.take(0) =~= Seq::<EventoXml>::empty());
    while i < eventos.len()
        invariant
            i <= eventos@.len(),
            st.vista() == plegar_descubrimiento(eventos@.take(i as int)),
        decreases eventos@.len() - i,
    {
        assert(eventos@.take(i + 1).drop_last() =~= eventos@.take(i as int));
        assert(eventos@.take(i + 1).last() == eventos@[i as int]);
        st.paso(&eventos[i]);
        i = i + 1;
    }
    assert(eventos@.take(eventos@.len() as int) =~= eventos@);
    st.hosts
}

/// The hosts of a discovery report, read from its events.
pub fn procesar_descubrimiento(eventos: &Vec<EventoXml>) -> (r: Vec<HostDescubierto>)
    ensures
        vistas_hosts(r@) == plegar_descubrimiento(eventos@).hosts,
{
    plegar_descubrimiento_exec(eventos)
}

/// The hosts of an Nmap discovery report (`nmap -sn -oX -`).
pub fn parsear_xml_descubrimiento(xml: &str) -> (r: Vec<HostDescubierto>)
    ensures
        vistas_hosts(r@) == plegar_descubrimiento(eventos_xml(xml@)).hosts,
        eventos_xml(xml@).last() is Error ==> vistas_hosts(r@) == plegar_descubrimiento(
            eventos_xml(xml@).drop_last(),
        ).hosts,
{
    let eventos = leer_eventos(xml);
    proof {
        if eventos@.last() is Error {
            ley_error_conserva_lo_leido(eventos@.drop_last());
            assert(eventos@.drop_last().push(EventoXml::Error) =~= eventos@);
        }
    }
    procesar_descubrimiento(&eventos)
}


/// `ev` is an `address` tag (start or empty) whose `addrtype` is `mac`.
pub open spec fn etiqueta_mac(ev: EventoXml) -> bool {
    match ev {
        EventoXml::Etiqueta { vacia, nombre, atributos } => nombre@ == "address".spec_bytes()
            && valor_o_vacio(atributos@, "addrtype".spec_bytes()) == "mac"@,
        _ => false,
    }
}

/// The attributes of a tag (none for other events).
pub open spec fn atributos_de(ev: EventoXml) -> Seq<Atributo> {
    match ev {
        EventoXml::Etiqueta { vacia, nombre, atributos } => atributos@,
        _ => Seq::<Atributo>::empty(),
    }
}

/// A scan report gives a MAC address only from an `address` element of
/// type `mac`, as that element's `addr`; and a vendor only as the non-empty
/// `vendor` of such an element. A report with no such element (a host
/// behind a router, reported by its IPv4 address only) gives neither.
pub proof fn ley_mac_solo_de_direcciones_mac(evs: Seq<EventoXml>)
    ensures
        plegar_escaneo(evs).mac matches Some(v) ==> exists|i: int|
            0 <= i < evs.len() && #[trigger] etiqueta_mac(evs[i]) && valor_o_vacio(atributos_de(evs[i]), "addr".spec_bytes())
                == v,
        plegar_escaneo(evs).vendor matches Some(v) ==> v.len() > 0 && exists|i: int|
            0 <= i < evs.len() && #[trigger] etiqueta_mac(evs[i]) && valor_o_vacio(
                atributos_de(evs[i]),
                "vendor".spec_bytes(),
            ) == v,
        (forall|i: int| 0 <= i < evs.len() ==> !#[trigger] etiqueta_mac(evs[i])) ==> plegar_escaneo(evs).mac is None
            && plegar_escaneo(evs).vendor is None,
    decreases evs.len(),
{
    if evs.len() > 0 {
        let q = evs.drop_last();
        ley_mac_solo_de_direcciones_mac(q);
        let last = evs.len() - 1;
        assert forall|i: int| 0 <= i < q.len() implies #[trigger] q[i] == evs[i] by {}
        assert(evs.last() == evs[last]);
        if plegar_escaneo(evs).mac is Some {
            let v = plegar_escaneo(evs).mac->0;
            if plegar_escaneo(q).mac == Some(v) {
                let i = choose|i: int|
                    0 <= i < q.len() && #[trigger] etiqueta_mac(q[i]) && valor_o_vacio(atributos_de(q[i]), "addr".spec_bytes()) == v;
                assert(etiqueta_mac(evs[i]));
            } else {
                assert(etiqueta_mac(evs[last]));
            }
        }
        if plegar_escaneo(evs).vendor is Some {
            let v = plegar_escaneo(evs).vendor->0;
            if plegar_escaneo(q).vendor == Some(v) {
                let i = choose|i: int|
                    0 <= i < q.len() && #[trigger] etiqueta_mac(q[i]) && valor_o_vacio(atributos_de(q[i]), "vendor".spec_bytes()) == v;
                assert(etiqueta_mac(evs[i]));
            } else {
                assert(etiqueta_mac(evs[last]));
            }
        }
    }
}

/// One event only appends to the ports listed so far, and only open ports.
proof fn lema_paso_escaneo(st: EstadoEscaneo, ev: EventoXml)
    requires
        forall|i: int| 0 <= i < st.puertos.len() ==> (#[trigger] st.puertos[i]).estado == estado_abierto(),
    ensures
        ({
            let n = paso_escaneo(st, ev).puertos;
            &&& st.puertos.len() <= n.len() <= st.puertos.len() + 1
            &&& n.take(st.puertos.len() as int) == st.puertos
            &&& forall|i: int| 0 <= i < n.len() ==> (#[trigger] n[i]).estado == estado_abierto()
        }),
{
    let n = paso_escaneo(st, ev).puertos;
    assert(n.take(st.puertos.len() as int) =~= st.puertos);
}

/// One event only appends to the hosts listed so far.
proof fn lema_paso_descubrimiento(st: EstadoDescubrimiento, ev: EventoXml)
    ensures
        ({
            let n = paso_descubrimiento(st, ev).hosts;
            &&& st.hosts.len() <= n.len() <= st.hosts.len() + 1
            &&& n.take(st.hosts.len() as int) == st.hosts
        }),
{
    let n = paso_descubrimiento(st, ev).hosts;
    assert(n.take(st.hosts.len() as int) =~= st.hosts);
}

/// Every port a scan report lists is open.
pub proof fn ley_solo_puertos_abiertos(evs: Seq<EventoXml>)
    ensures
        forall|i: int| 0 <= i < plegar_escaneo(evs).puertos.len() ==> (#[trigger] plegar_escaneo(evs).puertos[i]).estado
            == estado_abierto(),
    decreases evs.len(),
{
    if evs.len() > 0 {
        ley_solo_puertos_abiertos(evs.drop_last());
        lema_paso_escaneo(plegar_escaneo(evs.drop_last()), evs.last());
    }
}

/// Reading more of a scan report only appends ports: those listed so far
/// stay listed, once each, in order.
pub proof fn ley_puertos_solo_crecen(evs: Seq<EventoXml>, mas: Seq<EventoXml>)
    ensures
        plegar_escaneo(evs).puertos.len() <= plegar_escaneo(evs + mas).puertos.len(),
        plegar_escaneo(evs + mas).puertos.take(plegar_escaneo(evs).puertos.len() as int) == plegar_escaneo(evs).puertos,
    decreases mas.len(),
{
    if mas.len() == 0 {
        assert(evs + mas =~= evs);
        assert(plegar_escaneo(evs).puertos.take(plegar_escaneo(evs).puertos.len() as int) =~= plegar_escaneo(evs).puertos);
    } else {
        let m = mas.drop_last();
        ley_puertos_solo_crecen(evs, m);
        assert((evs + mas).drop_last() =~= evs + m);
        assert((evs + mas).last() == mas.last());
        ley_solo_puertos_abiertos(evs + m);
        lema_paso_escaneo(plegar_escaneo(evs + m), mas.last());
        let a = plegar_escaneo(evs).puertos;
        let b = plegar_escaneo(evs + m).puertos;
        let c = plegar_escaneo(evs + mas).puertos;
        assert(c.take(a.len() as int) =~= c.take(b.len() as int).take(a.len() as int));
    }
}

/// At the end tag of a `port`, the port being read is listed when its state
/// is `open`, with its protocol, its number and the service named since its
/// start tag (empty when none was), and nothing else is listed.
pub proof fn ley_fin_de_puerto(evs: Seq<EventoXml>, nombre: Vec<u8>)
    requires
        nombre@ == "port".spec_bytes(),
        plegar_escaneo(evs).puerto_actual is Some,
    ensures
        ({
            let st = plegar_escaneo(evs);
            let pa = st.puerto_actual->0;
            plegar_escaneo(evs.push(EventoXml::Cierre(nombre))).puertos == if st.estado_actual == Some(
                estado_abierto(),
            ) {
                st.puertos.push(
                    PuertoVisto { protocolo: pa.0, puerto: pa.1, estado: estado_abierto(), servicio: st.servicio_actual },
                )
            } else {
                st.puertos
            }
        }),
{
    assert(evs.push(EventoXml::Cierre(nombre)).drop_last() =~= evs);
}

/// Reading more of a discovery report only appends hosts: those listed so
/// far stay listed, once each, in order.
pub proof fn ley_hosts_solo_crecen(evs: Seq<EventoXml>, mas: Seq<EventoXml>)
    ensures
        plegar_descubrimiento(evs).hosts.len() <= plegar_descubrimiento(evs + mas).hosts.len(),
        plegar_descubrimiento(evs + mas).hosts.take(plegar_descubrimiento(evs).hosts.len() as int)
            == plegar_descubrimiento(evs).hosts,
    decreases mas.len(),
{
    if mas.len() == 0 {
        assert(evs + mas =~= evs);
        assert(plegar_descubrimiento(evs).hosts.take(plegar_descubrimiento(evs).hosts.len() as int)
            =~= plegar_descubrimiento(evs).hosts);
    } else {
        let m = mas.drop_last();
        ley_hosts_solo_crecen(evs, m);
        assert((evs + mas).drop_last() =~= evs + m);
        assert((evs + mas).last() == mas.last());
        lema_paso_descubrimiento(plegar_descubrimiento(evs + m), mas.last());
        let a = plegar_descubrimiento(evs).hosts;
        let b = plegar_descubrimiento(evs + m).hosts;
        let c = plegar_descubrimiento(evs + mas).hosts;
        assert(c.take(a.len() as int) =~= c.take(b.len() as int).take(a.len() as int));
    }
}

/// A `host` start tag begins a host with nothing read of it yet, so no
/// field of a listed host comes from another `host` element.
pub proof fn ley_inicio_de_host(evs: Seq<EventoXml>, nombre: Vec<u8>, atributos: Vec<Atributo>)
    requires
        nombre@ == "host".spec_bytes(),
    ensures
        ({
            let st = plegar_descubrimiento(evs.push(EventoXml::Etiqueta { vacia: false, nombre, atributos }));
            &&& st.dentro
            &&& st.ip is None && st.hostname is None && st.mac is None && st.vendor is None && st.estado is None
            &&& st.hosts == plegar_descubrimiento(evs).hosts
        }),
{
    assert(evs.push(EventoXml::Etiqueta { vacia: false, nombre, atributos }).drop_last() =~= evs);
}

/// At the end tag of a `host`, the host being read is listed when it had an
/// IPv4 address, with the fields read since its start tag; otherwise
/// nothing is listed.
pub proof fn ley_fin_de_host(evs: Seq<EventoXml>, nombre: Vec<u8>)
    requires
        nombre@ == "host".spec_bytes(),
    ensures
        ({
            let st = plegar_descubrimiento(evs);
            plegar_descubrimiento(evs.push(EventoXml::Cierre(nombre))).hosts == if st.dentro && st.ip is Some {
                st.hosts.push(
                    HostVisto {
                        ip: st.ip->0,
                        hostname: st.hostname,
                        mac: st.mac,
                        vendor: st.vendor,
                        estado: st.estado,
                    },
                )
            } else {
                st.hosts
            }
        }),
{
    assert(evs.push(EventoXml::Cierre(nombre)).drop_last() =~= evs);
}

/// A reading error keeps what was read before it: the scan and the
/// discovery read from the events up to an error are those read from the
/// events before it.
pub proof fn ley_error_conserva_lo_leido(evs: Seq<EventoXml>)
    ensures
        plegar_escaneo(evs.push(EventoXml::Error)) == plegar_escaneo(evs),
        plegar_descubrimiento(evs.push(EventoXml::Error)) == plegar_descubrimiento(evs),
{
    assert(evs.push(EventoXml::Error).drop_last() =~= evs);
}

// ---------------------------------------------------------------------
// Device types
// ---------------------------------------------------------------------

/// What the device type is inferred from. The texts are lowercase; the
/// port numbers are those of the listed ports that parse as `u16`.
pub struct Rasgos {
    pub ip: Seq<char>,
    pub vendor: Seq<char>,
    pub host: Seq<char>,
    pub so: Seq<char>,
    pub puertos: Seq<u16>,
    pub servicios: Seq<Seq<char>>,
}

pub open spec fn tiene(puertos: Seq<u16>, p: u16) -> bool {
    puertos.contains(p)
}

/// Some service name contains `pat`.
pub open spec fn algun_servicio(servicios: Seq<Seq<char>>, pat: Seq<char>) -> bool {
    exists|i: int| 0 <= i < servicios.len() && contiene(#[trigger] servicios[i], pat)
}

/// Printer: print ports (631, 9100, 515), print services, or a printer maker.
pub open spec fn es_impresora(r: Rasgos) -> bool {
    tiene(r.puertos, 631)
        || tiene(r.puertos, 9100)
        || tiene(r.puertos, 515)
        || algun_servicio(r.servicios, "ipp"@)
        || algun_servicio(r.servicios, "jetdirect"@)
        || algun_servicio(r.servicios, "printer"@)
        || algun_servicio(r.servicios, "lpd"@)
        || contiene(r.vendor, "epson"@)
        || contiene(r.vendor, "canon"@)
        || contiene(r.vendor, "brother"@)
        || contiene(r.vendor, "xerox"@)
        || contiene(r.vendor, "lexmark"@)
        || contiene(r.vendor, "kyocera"@)
        || contiene(r.vendor, "ricoh"@)
}

/// Camera: streaming ports (554, 8000, 8899), RTSP/ONVIF services, a camera maker, or a camera-like host name.
pub open spec fn es_camara(r: Rasgos) -> bool {
    tiene(r.puertos, 554)
        || tiene(r.puertos, 8000)
        || tiene(r.puertos, 8899)
        || algun_servicio(r.servicios, "rtsp"@)
        || algun_servicio(r.servicios, "onvif"@)
        || contiene(r.vendor, "hikvision"@)
        || contiene(r.vendor, "dahua"@)
        || contiene(r.vendor, "axis"@)
        || contiene(r.vendor, "reolink"@)
        || contiene(r.vendor, "amcrest"@)
        || contiene(r.vendor, "foscam"@)
        || contiene(r.host, "cam"@)
        || contiene(r.host, "camera"@)
        || contiene(r.host, "cctv"@)
}

/// Switch: a switch-like host name or model, a Cisco device with SNMP or telnet and no DNS, or SNMP and telnet without a web server.
pub open spec fn es_switch(r: Rasgos) -> bool {
    contiene(r.host, "switch"@)
        || contiene(r.host, "sw-"@)
        || contiene(r.host, "-sw"@)
        || contiene(r.vendor, "catalyst"@)
        || contiene(r.vendor, "procurve"@)
        || (contiene(r.vendor, "cisco"@) && (tiene(r.puertos, 161) || tiene(r.puertos, 23)) && !tiene(r.puertos, 53))
        || (tiene(r.puertos, 161) && tiene(r.puertos, 23) && !tiene(r.puertos, 80) && !tiene(r.puertos, 443))
}

/// Router: a gateway address (`.1`, `.254`), DNS or DHCP ports, a router-like host name, maker or system, or a Cisco device with a web server or SSH.
pub open spec fn es_router(r: Rasgos) -> bool {
    termina_con(r.ip, ".1"@)
        || termina_con(r.ip, ".254"@)
        || tiene(r.puertos, 53)
        || tiene(r.puertos, 67)
        || tiene(r.puertos, 68)
        || contiene(r.host, "router"@)
        || contiene(r.host, "gateway"@)
        || contiene(r.host, "gw"@)
        || contiene(r.host, "modem"@)
        || contiene(r.vendor, "mikrotik"@)
        || contiene(r.vendor, "ubiquiti"@)
        || contiene(r.vendor, "tp-link"@)
        || contiene(r.vendor, "netgear"@)
        || contiene(r.vendor, "linksys"@)
        || contiene(r.vendor, "fortinet"@)
        || contiene(r.vendor, "technicolor"@)
        || contiene(r.vendor, "arcsady"@)
        || contiene(r.vendor, "sagemcom"@)
        || contiene(r.vendor, "zte"@)
        || contiene(r.vendor, "zyxel"@)
        || contiene(r.so, "routeros"@)
        || contiene(r.so, "openwrt"@)
        || contiene(r.so, "dd-wrt"@)
        || contiene(r.so, "cisco ios"@)
        || (contiene(r.vendor, "cisco"@) && (tiene(r.puertos, 80) || tiene(r.puertos, 443) || tiene(r.puertos, 22)))
}

/// Server: database ports, SSH next to a web server, or a server-like host name or system.
pub open spec fn es_servidor(r: Rasgos) -> bool {
    tiene(r.puertos, 3306)
        || tiene(r.puertos, 5432)
        || tiene(r.puertos, 27017)
        || tiene(r.puertos, 6379)
        || tiene(r.puertos, 1433)
        || (tiene(r.puertos, 22) && (tiene(r.puertos, 80) || tiene(r.puertos, 443) || tiene(r.puertos, 8080) || tiene(r.puertos, 8443)))
        || contiene(r.host, "server"@)
        || contiene(r.host, "srv"@)
        || contiene(r.host, "node"@)
        || contiene(r.host, "cluster"@)
        || contiene(r.so, "server"@)
        || contiene(r.so, "ubuntu server"@)
        || contiene(r.so, "debian"@)
        || contiene(r.so, "redhat"@)
        || contiene(r.so, "centos"@)
        || contiene(r.so, "proxmox"@)
        || contiene(r.so, "esxi"@)
}

/// PC: Windows or mDNS ports, a desktop-like host name, a PC maker, or a desktop system.
pub open spec fn es_pc(r: Rasgos) -> bool {
    tiene(r.puertos, 445)
        || tiene(r.puertos, 135)
        || tiene(r.puertos, 139)
        || tiene(r.puertos, 3389)
        || tiene(r.puertos, 5353)
        || contiene(r.host, "pc"@)
        || contiene(r.host, "laptop"@)
        || contiene(r.host, "desktop"@)
        || contiene(r.host, "win"@)
        || contiene(r.host, "macbook"@)
        || contiene(r.vendor, "apple"@)
        || contiene(r.vendor, "intel"@)
        || contiene(r.vendor, "dell"@)
        || contiene(r.vendor, "lenovo"@)
        || contiene(r.vendor, "microsoft"@)
        || contiene(r.vendor, "realtek"@)
        || contiene(r.so, "windows"@)
        || contiene(r.so, "mac"@)
        || contiene(r.so, "ubuntu"@)
}

/// The inferred type: the first rule that matches, in the order printer,
/// camera, switch, router, server, PC; otherwise a router when a web port
/// is open, else a PC.
pub open spec fn tipo_por_rasgos(r: Rasgos) -> Seq<char> {
    if es_impresora(r) {
        "Impresora"@
    } else if es_camara(r) {
        "Cámara"@
    } else if es_switch(r) {
        "Switch"@
    } else if es_router(r) {
        "Router"@
    } else if es_servidor(r) {
        "Servidor"@
    } else if es_pc(r) {
        "PC"@
    } else if tiene(r.puertos, 80) || tiene(r.puertos, 443) {
        "Router"@
    } else {
        "PC"@
    }
}

/// The device type is always one of the known device types.
pub proof fn ley_tipo_conocido(r: Rasgos)
    ensures
        tipo_por_rasgos(r) == "Impresora"@ || tipo_por_rasgos(r) == "Cámara"@ || tipo_por_rasgos(r)
            == "Switch"@ || tipo_por_rasgos(r) == "Router"@ || tipo_por_rasgos(r) == "Servidor"@
            || tipo_por_rasgos(r) == "PC"@,
{
}

/// The rules are tried in the order printer, camera, switch, router,
/// server, PC: the type is that of the first rule whose traits hold, whatever
/// later rules would say; with none, a web port makes a router, else a PC.
pub proof fn ley_orden_de_las_reglas(r: Rasgos)
    ensures
        es_impresora(r) ==> tipo_por_rasgos(r) == "Impresora"@,
        !es_impresora(r) && es_camara(r) ==> tipo_por_rasgos(r) == "Cámara"@,
        !es_impresora(r) && !es_camara(r) && es_switch(r) ==> tipo_por_rasgos(r) == "Switch"@,
        !es_impresora(r) && !es_camara(r) && !es_switch(r) && es_router(r) ==> tipo_por_rasgos(r) == "Router"@,
        !es_impresora(r) && !es_camara(r) && !es_switch(r) && !es_router(r) && es_servidor(r)
            ==> tipo_por_rasgos(r) == "Servidor"@,
        !es_impresora(r) && !es_camara(r) && !es_switch(r) && !es_router(r) && !es_servidor(r) && es_pc(r)
            ==> tipo_por_rasgos(r) == "PC"@,
{
}

/// A Cisco device with telnet or SNMP open and no DNS is a switch, unless a
/// printer or camera trait holds, even when SSH or a web port (router
/// traits for Cisco) is open too.
pub proof fn ley_cisco_con_telnet_es_switch(r: Rasgos)
    requires
        contiene(r.vendor, "cisco"@),
        tiene(r.puertos, 23) || tiene(r.puertos, 161),
        !tiene(r.puertos, 53),
        !es_impresora(r),
        !es_camara(r),
    ensures
        tipo_por_rasgos(r) == "Switch"@,
{
}

/// A host with no maker, no name, no system and no ports whose address
/// ends in `.1` or `.254` (a gateway) is a router: the address alone
/// decides it.
pub proof fn ley_puerta_de_enlace_es_router(ip: Seq<char>)
    requires
        termina_con(ip, ".1"@) || termina_con(ip, ".254"@),
    ensures
        tipo_por_rasgos(rasgos_ascii_de(ip, None, None, None, Seq::<PuertoVisto>::empty())) == "Router"@,
{
    let r = rasgos_ascii_de(ip, None, None, None, Seq::<PuertoVisto>::empty());
    assert(r.vendor =~= Seq::<char>::empty());
    assert(r.host =~= Seq::<char>::empty());
    assert(r.so =~= Seq::<char>::empty());
    assert(r.servicios =~= Seq::<Seq<char>>::empty());
    assert(r.puertos =~= Seq::<u16>::empty());
    reveal_strlit("ipp");
    reveal_strlit("jetdirect");
    reveal_strlit("printer");
    reveal_strlit("lpd");
    reveal_strlit("epson");
    reveal_strlit("canon");
    reveal_strlit("brother");
    reveal_strlit("xerox");
    reveal_strlit("lexmark");
    reveal_strlit("kyocera");
    reveal_strlit("ricoh");
    reveal_strlit("rtsp");
    reveal_strlit("onvif");
    reveal_strlit("hikvision");
    reveal_strlit("dahua");
    reveal_strlit("axis");
    reveal_strlit("reolink");
    reveal_strlit("amcrest");
    reveal_strlit("foscam");
    reveal_strlit("cam");
    reveal_strlit("camera");
    reveal_strlit("cctv");
    reveal_strlit("switch");
    reveal_strlit("sw-");
    reveal_strlit("-sw");
    reveal_strlit("catalyst");
    reveal_strlit("procurve");
    reveal_strlit("cisco");
}

/// An open print port makes a printer, whatever else is known.
pub proof fn ley_puerto_de_impresion(r: Rasgos)
    requires
        tiene(r.puertos, 631) || tiene(r.puertos, 9100) || tiene(r.puertos, 515),
    ensures
        tipo_por_rasgos(r) == "Impresora"@,
{
}

/// Two sets of traits that agree on the texts, on which port numbers are
/// open and on which patterns some service name contains give the same
/// device type.
pub proof fn ley_rasgos_equivalentes(r1: Rasgos, r2: Rasgos)
    requires
        r1.ip == r2.ip && r1.vendor == r2.vendor && r1.host == r2.host && r1.so == r2.so,
        forall|n: u16| #[trigger] tiene(r1.puertos, n) == tiene(r2.puertos, n),
        forall|pat: Seq<char>| #[trigger] algun_servicio(r1.servicios, pat) == algun_servicio(r2.servicios, pat),
    ensures
        tipo_por_rasgos(r1) == tipo_por_rasgos(r2),
{
}

proof fn lema_numero_listado(ps: Seq<PuertoVisto>, n: u16)
    ensures
        tiene(numeros_puertos(ps), n) <==> exists|i: int|
            0 <= i < ps.len() && natural_de(#[trigger] ps[i].puerto, 65535) == Some(n as int),
    decreases ps.len(),
{
    if ps.len() > 0 {
        let q = ps.drop_last();
        lema_numero_listado(q, n);
        assert forall|i: int| 0 <= i < q.len() implies #[trigger] q[i] == ps[i] by {}
        let last = ps.len() - 1;
        if tiene(numeros_puertos(ps), n) {
            if !tiene(numeros_puertos(q), n) {
                let r = numeros_puertos(q);
                let k = choose|k: int| 0 <= k < numeros_puertos(ps).len() && numeros_puertos(ps)[k] == n;
                match natural_de(ps.last().puerto, 65535) {
                    Some(m) => {
                        if k < r.len() {
                            assert(r[k] == n);
                        }
                        lema_valor_no_negativo(cifras_sin_signo(ps.last().puerto));
                        assert(m as u16 == n);
                    },
                    None => {
                        assert(r[k] == n);
                    },
                }
                assert(natural_de(ps[last].puerto, 65535) == Some(n as int));
            } else {
                let i = choose|i: int| 0 <= i < q.len() && natural_de(#[trigger] q[i].puerto, 65535) == Some(n as int);
                assert(natural_de(ps[i].puerto, 65535) == Some(n as int));
            }
        }
        if exists|i: int| 0 <= i < ps.len() && natural_de(#[trigger] ps[i].puerto, 65535) == Some(n as int) {
            let i = choose|i: int| 0 <= i < ps.len() && natural_de(#[trigger] ps[i].puerto, 65535) == Some(n as int);
            if i < last {
                assert(natural_de(q[i].puerto, 65535) == Some(n as int));
                assert(numeros_puertos(q).contains(n));
                let k = choose|k: int| 0 <= k < numeros_puertos(q).len() && numeros_puertos(q)[k] == n;
                match natural_de(ps.last().puerto, 65535) {
                    Some(m) => assert(numeros_puertos(ps)[k] == n),
                    None => {},
                }
            } else {
                let r = numeros_puertos(q);
                assert(numeros_puertos(ps) == r.push(n));
                assert(numeros_puertos(ps)[r.len() as int] == n);
            }
        }
    }
}

/// The device type depends on which ports are listed, not on their order
/// or on repetitions.
pub proof fn ley_orden_de_puertos(
    ip: Seq<char>,
    vendor: Option<Seq<char>>,
    hostname: Option<Seq<char>>,
    so: Option<Seq<char>>,
    ps1: Seq<PuertoVisto>,
    ps2: Seq<PuertoVisto>,
)
    requires
        forall|p: PuertoVisto| ps1.contains(p) <==> ps2.contains(p),
    ensures
        tipo_por_rasgos(rasgos_de(ip, vendor, hostname, so, ps1)) == tipo_por_rasgos(
            rasgos_de(ip, vendor, hostname, so, ps2),
        ),
{
    let r1 = rasgos_de(ip, vendor, hostname, so, ps1);
    let r2 = rasgos_de(ip, vendor, hostname, so, ps2);
    assert forall|n: u16| #[trigger] tiene(r1.puertos, n) == tiene(r2.puertos, n) by {
        lema_numero_listado(ps1, n);
        lema_numero_listado(ps2, n);
        if exists|i: int| 0 <= i < ps1.len() && natural_de(#[trigger] ps1[i].puerto, 65535) == Some(n as int) {
            let i = choose|i: int| 0 <= i < ps1.len() && natural_de(#[trigger] ps1[i].puerto, 65535) == Some(n as int);
            assert(ps1.contains(ps1[i]));
            let j = choose|j: int| 0 <= j < ps2.len() && ps2[j] == ps1[i];
            assert(natural_de(ps2[j].puerto, 65535) == Some(n as int));
        }
        if exists|i: int| 0 <= i < ps2.len() && natural_de(#[trigger] ps2[i].puerto, 65535) == Some(n as int) {
            let i = choose|i: int| 0 <= i < ps2.len() && natural_de(#[trigger] ps2[i].puerto, 65535) == Some(n as int);
            assert(ps2.contains(ps2[i]));
            let j = choose|j: int| 0 <= j < ps1.len() && ps1[j] == ps2[i];
            assert(natural_de(ps1[j].puerto, 65535) == Some(n as int));
        }
    }
    assert forall|pat: Seq<char>| #[trigger] algun_servicio(r1.servicios, pat) == algun_servicio(r2.servicios, pat) by {
        if algun_servicio(r1.servicios, pat) {
            let i = choose|i: int| 0 <= i < r1.servicios.len() && contiene(#[trigger] r1.servicios[i], pat);
            assert(ps1.contains(ps1[i]));
            let j = choose|j: int| 0 <= j < ps2.len() && ps2[j] == ps1[i];
            assert(r2.servicios[j] == r1.servicios[i]);
        }
        if algun_servicio(r2.servicios, pat) {
            let i = choose|i: int| 0 <= i < r2.servicios.len() && contiene(#[trigger] r2.servicios[i], pat);
            assert(ps2.contains(ps2[i]));
            let j = choose|j: int| 0 <= j < ps1.len() && ps1[j] == ps2[i];
            assert(r1.servicios[j] == r2.servicios[i]);
        }
    }
    ley_rasgos_equivalentes(r1, r2);
}

proof fn lema_minusculas_iguales(a: Seq<char>, b: Seq<char>)
    requires
        igual_sin_mayusculas(a, b),
    ensures
        minusculas_ascii(a) == minusculas_ascii(b),
{
    assert(minusculas_ascii(a) =~= minusculas_ascii(b));
}

proof fn lema_mismos_numeros(ps1: Seq<PuertoVisto>, ps2: Seq<PuertoVisto>)
    requires
        ps1.len() == ps2.len(),
        forall|i: int| 0 <= i < ps1.len() ==> (#[trigger] ps1[i]).puerto == ps2[i].puerto,
    ensures
        numeros_puertos(ps1) == numeros_puertos(ps2),
    decreases ps1.len(),
{
    if ps1.len() > 0 {
        let q1 = ps1.drop_last();
        let q2 = ps2.drop_last();
        assert forall|i: int| 0 <= i < q1.len() implies (#[trigger] q1[i]).puerto == q2[i].puerto by {
            assert(q1[i] == ps1[i] && q2[i] == ps2[i]);
        }
        lema_mismos_numeros(q1, q2);
        assert(ps1.last().puerto == ps2.last().puerto);
    }
}

/// With ASCII texts (where `clasificar_dispositivo` lowercases the ASCII
/// way), the device type does not depend on the case of the letters of the
/// vendor, host name, system or service names.
pub proof fn ley_sin_mayusculas(
    ip: Seq<char>,
    v1: Option<Seq<char>>,
    h1: Option<Seq<char>>,
    s1: Option<Seq<char>>,
    ps1: Seq<PuertoVisto>,
    v2: Option<Seq<char>>,
    h2: Option<Seq<char>>,
    s2: Option<Seq<char>>,
    ps2: Seq<PuertoVisto>,
)
    requires
        igual_sin_mayusculas(o_vacio(v1), o_vacio(v2)),
        igual_sin_mayusculas(o_vacio(h1), o_vacio(h2)),
        igual_sin_mayusculas(o_vacio(s1), o_vacio(s2)),
        ps1.len() == ps2.len(),
        forall|i: int| 0 <= i < ps1.len() ==> (#[trigger] ps1[i]).puerto == ps2[i].puerto
            && igual_sin_mayusculas(ps1[i].servicio, ps2[i].servicio),
    ensures
        tipo_por_rasgos(rasgos_ascii_de(ip, v1, h1, s1, ps1)) == tipo_por_rasgos(
            rasgos_ascii_de(ip, v2, h2, s2, ps2),
        ),
{
    lema_minusculas_iguales(o_vacio(v1), o_vacio(v2));
    lema_minusculas_iguales(o_vacio(h1), o_vacio(h2));
    lema_minusculas_iguales(o_vacio(s1), o_vacio(s2));
    lema_mismos_numeros(ps1, ps2);
    let a = ps1.map_values(|p: PuertoVisto| minusculas_ascii(p.servicio));
    let b = ps2.map_values(|p: PuertoVisto| minusculas_ascii(p.servicio));
    assert forall|k: int| 0 <= k < a.len() implies a[k] == b[k] by {
        lema_minusculas_iguales(ps1[k].servicio, ps2[k].servicio);
    }
    assert(a =~= b);
    assert(rasgos_ascii_de(ip, v1, h1, s1, ps1) == rasgos_ascii_de(ip, v2, h2, s2, ps2));
}

/// The rules as the code evaluates them.
struct RasgosExec {
    ip: Vec<char>,
    vendor: Vec<char>,
    host: Vec<char>,
    so: Vec<char>,
    puertos: Vec<u16>,
    servicios: Vec<Vec<char>>,
}

impl RasgosExec {
    spec fn vista(&self) -> Rasgos {
        Rasgos {
            ip: self.ip@,
            vendor: self.vendor@,
            host: self.host@,
            so: self.so@,
            puertos: self.puertos@,
            servicios: self.servicios@.map_values(|s: Vec<char>| s@),
        }
    }
}

fn tiene_exec(puertos: &Vec<u16>, p: u16) -> (r: bool)
    ensures
        r == tiene(puertos@, p),
{
    let mut i: usize = 0;
    while i < puertos.len()
        invariant
            i <= puertos@.len(),
            forall|k: int| 0 <= k < i ==> puertos@[k] != p,
        decreases puertos@.len() - i,
    {
        if puertos[i] == p {
            assert(puertos@[i as int] == p);
            return true;
        }
        i = i + 1;
    }
    false
}

fn algun_servicio_exec(servicios: &Vec<Vec<char>>, pat: &str) -> (r: bool)
    ensures
        r == algun_servicio(servicios@.map_values(|s: Vec<char>| s@), pat@),
{
    let ghost vs = servicios@.map_values(|s: Vec<char>| s@);
    let mut i: usize = 0;
    while i < servicios.len()
        invariant
            i <= servicios@.len(),
            vs == servicios@.map_values(|s: Vec<char>| s@),
            forall|k: int| 0 <= k < i ==> !contiene(#[trigger] vs[k], pat@),
        decreases servicios@.len() - i,
    {
        assert(vs[i as int] == servicios@[i as int]@);
        if contiene_exec(&servicios[i], pat) {
            return true;
        }
        i = i + 1;
    }
    false
}

fn es_impresora_exec(d: &RasgosExec) -> (b: bool)
    ensures
        b == es_impresora(d.vista()),
{
    tiene_exec(&d.puertos, 631)
        || tiene_exec(&d.puertos, 9100)
        || tiene_exec(&d.puertos, 515)
        || algun_servicio_exec(&d.servicios, "ipp")
        || algun_servicio_exec(&d.servicios, "jetdirect")
        || algun_servicio_exec(&d.servicios, "printer")
        || algun_servicio_exec(&d.servicios, "lpd")
        || contiene_exec(&d.vendor, "epson")
        || contiene_exec(&d.vendor, "canon")
        || contiene_exec(&d.vendor, "brother")
        || contiene_exec(&d.vendor, "xerox")
        || contiene_exec(&d.vendor, "lexmark")
        || contiene_exec(&d.vendor, "kyocera")
        || contiene_exec(&d.vendor, "ricoh")
}

fn es_camara_exec(d: &RasgosExec) -> (b: bool)
    ensures
        b == es_camara(d.vista()),
{
    tiene_exec(&d.puertos, 554)
        || tiene_exec(&d.puertos, 8000)
        || tiene_exec(&d.puertos, 8899)
        || algun_servicio_exec(&d.servicios, "rtsp")
        || algun_servicio_exec(&d.servicios, "onvif")
        || contiene_exec(&d.vendor, "hikvision")
        || contiene_exec(&d.vendor, "dahua")
        || contiene_exec(&d.vendor, "axis")
        || contiene_exec(&d.vendor, "reolink")
        || contiene_exec(&d.vendor, "amcrest")
        || contiene_exec(&d.vendor, "foscam")
        || contiene_exec(&d.host, "cam")
        || contiene_exec(&d.host, "camera")
        || contiene_exec(&d.host, "cctv")
}

fn es_switch_exec(d: &RasgosExec) -> (b: bool)
    ensures
        b == es_switch(d.vista()),
{
    contiene_exec(&d.host, "switch")
        || contiene_exec(&d.host, "sw-")
        || contiene_exec(&d.host, "-sw")
        || contiene_exec(&d.vendor, "catalyst")
        || contiene_exec(&d.vendor, "procurve")
        || (contiene_exec(&d.vendor, "cisco") && (tiene_exec(&d.puertos, 161) || tiene_exec(&d.puertos, 23)) && !tiene_exec(&d.puertos, 53))
        || (tiene_exec(&d.puertos, 161) && tiene_exec(&d.puertos, 23) && !tiene_exec(&d.puertos, 80) && !tiene_exec(&d.puertos, 443))
}

fn es_router_exec(d: &RasgosExec) -> (b: bool)
    ensures
        b == es_router(d.vista()),
{
    termina_con_exec(&d.ip, ".1")
        || termina_con_exec(&d.ip, ".254")
        || tiene_exec(&d.puertos, 53)
        || tiene_exec(&d.puertos, 67)
        || tiene_exec(&d.puertos, 68)
        || contiene_exec(&d.host, "router")
        || contiene_exec(&d.host, "gateway")
        || contiene_exec(&d.host, "gw")
        || contiene_exec(&d.host, "modem")
        || contiene_exec(&d.vendor, "mikrotik")
        || contiene_exec(&d.vendor, "ubiquiti")
        || contiene_exec(&d.vendor, "tp-link")
        || contiene_exec(&d.vendor, "netgear")
        || contiene_exec(&d.vendor, "linksys")
        || contiene_exec(&d.vendor, "fortinet")
        || contiene_exec(&d.vendor, "technicolor")
        || contiene_exec(&d.vendor, "arcsady")
        || contiene_exec(&d.vendor, "sagemcom")
        || contiene_exec(&d.vendor, "zte")
        || contiene_exec(&d.vendor, "zyxel")
        || contiene_exec(&d.so, "routeros")
        || contiene_exec(&d.so, "openwrt")
        || contiene_exec(&d.so, "dd-wrt")
        || contiene_exec(&d.so, "cisco ios")
        || (contiene_exec(&d.vendor, "cisco") && (tiene_exec(&d.puertos, 80) || tiene_exec(&d.puertos, 443) || tiene_exec(&d.puertos, 22)))
}

fn es_servidor_exec(d: &RasgosExec) -> (b: bool)
    ensures
        b == es_servidor(d.vista()),
{
    tiene_exec(&d.puertos, 3306)
        || tiene_exec(&d.puertos, 5432)
        || tiene_exec(&d.puertos, 27017)
        || tiene_exec(&d.puertos, 6379)
        || tiene_exec(&d.puertos, 1433)
        || (tiene_exec(&d.puertos, 22) && (tiene_exec(&d.puertos, 80) || tiene_exec(&d.puertos, 443) || tiene_exec(&d.puertos, 8080) || tiene_exec(&d.puertos, 8443)))
        || contiene_exec(&d.host, "server")
        || contiene_exec(&d.host, "srv")
        || contiene_exec(&d.host, "node")
        || contiene_exec(&d.host, "cluster")
        || contiene_exec(&d.so, "server")
        || contiene_exec(&d.so, "ubuntu server")
        || contiene_exec(&d.so, "debian")
        || contiene_exec(&d.so, "redhat")
        || contiene_exec(&d.so, "centos")
        || contiene_exec(&d.so, "proxmox")
        || contiene_exec(&d.so, "esxi")
}

fn es_pc_exec(d: &RasgosExec) -> (b: bool)
    ensures
        b == es_pc(d.vista()),
{
    tiene_exec(&d.puertos, 445)
        || tiene_exec(&d.puertos, 135)
        || tiene_exec(&d.puertos, 139)
        || tiene_exec(&d.puertos, 3389)
        || tiene_exec(&d.puertos, 5353)
        || contiene_exec(&d.host, "pc")
        || contiene_exec(&d.host, "laptop")
        || contiene_exec(&d.host, "desktop")
        || contiene_exec(&d.host, "win")
        || contiene_exec(&d.host, "macbook")
        || contiene_exec(&d.vendor, "apple")
        || contiene_exec(&d.vendor, "intel")
        || contiene_exec(&d.vendor, "dell")
        || contiene_exec(&d.vendor, "lenovo")
        || contiene_exec(&d.vendor, "microsoft")
        || contiene_exec(&d.vendor, "realtek")
        || contiene_exec(&d.so, "windows")
        || contiene_exec(&d.so, "mac")
        || contiene_exec(&d.so, "ubuntu")
}

fn tipo_por_rasgos_exec(d: &RasgosExec) -> (r: String)
    ensures
        r@ == tipo_por_rasgos(d.vista()),
{
    if es_impresora_exec(d) {
        String::from_str("Impresora")
    } else if es_camara_exec(d) {
        String::from_str("Cámara")
    } else if es_switch_exec(d) {
        String::from_str("Switch")
    } else if es_router_exec(d) {
        String::from_str("Router")
    } else if es_servidor_exec(d) {
        String::from_str("Servidor")
    } else if es_pc_exec(d) {
        String::from_str("PC")
    } else if tiene_exec(&d.puertos, 80) || tiene_exec(&d.puertos, 443) {
        String::from_str("Router")
    } else {
        String::from_str("PC")
    }
}

/// Infers the device type from already lowercased vendor, host name,
/// system and service names, and from the open port numbers.
pub fn clasificar_por_rasgos(
    ip: &str,
    vendor: &str,
    host: &str,
    so: &str,
    puertos: &Vec<u16>,
    servicios: &Vec<String>,
) -> (r: String)
    ensures
        r@ == tipo_por_rasgos(
            Rasgos {
                ip: ip@,
                vendor: vendor@,
                host: host@,
                so: so@,
                puertos: puertos@,
                servicios: servicios@.map_values(|s: String| s@),
            },
        ),
{
    let mut sv: Vec<Vec<char>> = Vec::new();
    let mut i: usize = 0;
    while i < servicios.len()
        invariant
            i <= servicios@.len(),
            sv@.len() == i,
            sv@.map_values(|s: Vec<char>| s@) =~= servicios@.take(i as int).map_values(|s: String| s@),
        decreases servicios@.len() - i,
    {
        let ghost antes = sv@;
        let c = caracteres(servicios[i].as_str());
        sv.push(c);
        proof {
            let a = sv@.map_values(|s: Vec<char>| s@);
            let b = servicios@.take(i + 1).map_values(|s: String| s@);
            assert forall|k: int| 0 <= k < a.len() implies a[k] == b[k] by {
                if k < i {
                    assert(sv@[k] == antes[k]);
                    assert(antes.map_values(|s: Vec<char>| s@)[k] == servicios@.take(i as int).map_values(|s: String| s@)[k]);
                }
            }
            assert(a =~= b);
        }
        i = i + 1;
    }
    assert(servicios@.take(servicios@.len() as int) =~= servicios@);
    let d = RasgosExec {
        ip: caracteres(ip),
        vendor: caracteres(vendor),
        host: caracteres(host),
        so: caracteres(so),
        puertos: puertos.clone(),
        servicios: sv,
    };
    tipo_por_rasgos_exec(&d)
}

/// `o`, or the empty text.
pub open spec fn o_vacio(o: Option<Seq<char>>) -> Seq<char> {
    match o {
        Some(t) => t,
        None => Seq::<char>::empty(),
    }
}

/// The numbers of the listed ports that parse as `u16`, in order.
pub open spec fn numeros_puertos(ps: Seq<PuertoVisto>) -> Seq<u16>
    decreases ps.len(),
{
    if ps.len() == 0 {
        Seq::<u16>::empty()
    } else {
        let r = numeros_puertos(ps.drop_last());
        match natural_de(ps.last().puerto, 65535) {
            Some(n) => r.push(n as u16),
            None => r,
        }
    }
}

/// `s` lowercased the ASCII way.
pub open spec fn minusculas_ascii(s: Seq<char>) -> Seq<char> {
    s.map_values(|c: char| minuscula_ascii(c))
}

/// The vendor, host name, system and service names are all ASCII.
pub open spec fn textos_ascii(
    vendor: Option<Seq<char>>,
    hostname: Option<Seq<char>>,
    so: Option<Seq<char>>,
    ps: Seq<PuertoVisto>,
) -> bool {
    &&& es_ascii(o_vacio(vendor))
    &&& es_ascii(o_vacio(hostname))
    &&& es_ascii(o_vacio(so))
    &&& forall|i: int| 0 <= i < ps.len() ==> es_ascii(#[trigger] ps[i].servicio)
}

/// `(v2, h2, s2, ps2)` differs from `(v1, h1, s1, ps1)` at most in the case
/// of ASCII letters: in the vendor, host name and system, and, port by
/// port, in the service names (the port numbers are the same).
pub open spec fn variante_de_mayusculas(
    v1: Option<Seq<char>>,
    h1: Option<Seq<char>>,
    s1: Option<Seq<char>>,
    ps1: Seq<PuertoVisto>,
    v2: Option<Seq<char>>,
    h2: Option<Seq<char>>,
    s2: Option<Seq<char>>,
    ps2: Seq<PuertoVisto>,
) -> bool {
    &&& igual_sin_mayusculas(o_vacio(v1), o_vacio(v2))
    &&& igual_sin_mayusculas(o_vacio(h1), o_vacio(h2))
    &&& igual_sin_mayusculas(o_vacio(s1), o_vacio(s2))
    &&& ps1.len() == ps2.len()
    &&& forall|i: int| 0 <= i < ps1.len() ==> (#[trigger] ps1[i]).puerto == ps2[i].puerto
        && igual_sin_mayusculas(ps1[i].servicio, ps2[i].servicio)
}

/// `rasgos_de` for ASCII texts, where lowercasing is the ASCII one.
pub open spec fn rasgos_ascii_de(
    ip: Seq<char>,
    vendor: Option<Seq<char>>,
    hostname: Option<Seq<char>>,
    so: Option<Seq<char>>,
    ps: Seq<PuertoVisto>,
) -> Rasgos {
    Rasgos {
        ip: ip,
        vendor: minusculas_ascii(o_vacio(vendor)),
        host: minusculas_ascii(o_vacio(hostname)),
        so: minusculas_ascii(o_vacio(so)),
        puertos: numeros_puertos(ps),
        servicios: ps.map_values(|p: PuertoVisto| minusculas_ascii(p.servicio)),
    }
}

/// What the device type is inferred from, for a host with the given
/// address, vendor, host name, system and ports.
pub open spec fn rasgos_de(
    ip: Seq<char>,
    vendor: Option<Seq<char>>,
    hostname: Option<Seq<char>>,
    so: Option<Seq<char>>,
    ps: Seq<PuertoVisto>,
) -> Rasgos {
    Rasgos {
        ip: ip,
        vendor: minusculas(o_vacio(vendor)),
        host: minusculas(o_vacio(hostname)),
        so: minusculas(o_vacio(so)),
        puertos: numeros_puertos(ps),
        servicios: ps.map_values(|p: PuertoVisto| minusculas(p.servicio)),
    }
}

fn minusculas_o_vacio(o: Option<&str>) -> (r: String)
    ensures
        r@ == minusculas(o_vacio(o.deep_view())),
        es_ascii(o_vacio(o.deep_view())) ==> minusculas(o_vacio(o.deep_view())) == minusculas_ascii(
            o_vacio(o.deep_view()),
        ),
        forall|t: Seq<char>| #[trigger] igual_sin_mayusculas(o_vacio(o.deep_view()), t) ==> minusculas(t)
            == r@,
{
    match o {
        Some(t) => minusculas_exec(t),
        None => {
            let vacio = "";
            proof {
                reveal_strlit("");
            }
            assert(vacio@ =~= Seq::<char>::empty());
            minusculas_exec(vacio)
        },
    }
}

/// Infers the device type (printer, camera, switch, router, server or PC)
/// from the IP, the vendor of the MAC address, the host name, the detected
/// operating system and the listed ports; the texts are compared in
/// lowercase.
pub fn clasificar_dispositivo(
    ip: &str,
    vendor: Option<&str>,
    hostname: Option<&str>,
    so_detectado: Option<&str>,
    puertos: &[PuertoNmap],
) -> (r: String)
    ensures
        r@ == tipo_por_rasgos(
            rasgos_de(ip@, vendor.deep_view(), hostname.deep_view(), so_detectado.deep_view(), vistas_puertos(puertos@)),
        ),
        textos_ascii(vendor.deep_view(), hostname.deep_view(), so_detectado.deep_view(), vistas_puertos(puertos@))
            ==> r@ == tipo_por_rasgos(
            rasgos_ascii_de(ip@, vendor.deep_view(), hostname.deep_view(), so_detectado.deep_view(), vistas_puertos(puertos@)),
        ),        forall|v2: Option<Seq<char>>, h2: Option<Seq<char>>, s2: Option<Seq<char>>, ps2: Seq<PuertoVisto>|
            #[trigger] variante_de_mayusculas(
                vendor.deep_view(),
                hostname.deep_view(),
                so_detectado.deep_view(),
                vistas_puertos(puertos@),
                v2,
                h2,
                s2,
                ps2,
            ) ==> tipo_por_rasgos(rasgos_de(ip@, v2, h2, s2, ps2)) == r@,
{
    let vendor_min = minusculas_o_vacio(vendor);
    let host_min = minusculas_o_vacio(hostname);
    let so_min = minusculas_o_vacio(so_detectado);
    let ghost ps = vistas_puertos(puertos@);
    let mut numeros: Vec<u16> = Vec::new();
    let mut servicios: Vec<String> = Vec::new();
    let mut i: usize = 0;
    assert(ps.take(0) =~= Seq::<PuertoVisto>::empty());
    while i < puertos.len()
        invariant
            i <= puertos@.len(),
            ps == vistas_puertos(puertos@),
            numeros@ == numeros_puertos(ps.take(i as int)),
            servicios@.len() == i,
            servicios@.map_values(|s: String| s@) =~= ps.take(i as int).map_values(|p: PuertoVisto| minusculas(p.servicio)),
            forall|k: int| 0 <= k < i && es_ascii(#[trigger] ps[k].servicio) ==> minusculas(ps[k].servicio)
                == minusculas_ascii(ps[k].servicio),
            forall|k: int, t: Seq<char>| 0 <= k < i && #[trigger] igual_sin_mayusculas(ps[k].servicio, t)
                ==> minusculas(t) == minusculas(ps[k].servicio),
        decreases puertos@.len() - i,
    {
        assert(ps.take(i + 1).drop_last() =~= ps.take(i as int));
        assert(ps.take(i + 1).last() == puertos@[i as int].vista());
        match natural_de_exec(puertos[i].puerto.as_str(), 65535) {
            Some(n) => numeros.push(n as u16),
            None => {},
        }
        let ghost antes = servicios@;
        let m = minusculas_exec(puertos[i].servicio.as_str());
        assert(ps[i as int].servicio == puertos@[i as int].servicio@);
        servicios.push(m);
        proof {
            let a = servicios@.map_values(|s: String| s@);
            let b = ps.take(i + 1).map_values(|p: PuertoVisto| minusculas(p.servicio));
            assert forall|k: int| 0 <= k < a.len() implies a[k] == b[k] by {
                if k < i {
                    assert(servicios@[k] == antes[k]);
                    assert(antes.map_values(|s: String| s@)[k] == ps.take(i as int).map_values(|p: PuertoVisto| minusculas(p.servicio))[k]);
                }
            }
            assert(a =~= b);
        }
        i = i + 1;
    }
    assert(ps.take(puertos@.len() as int) =~= ps);
    proof {
        let vd = vendor.deep_view();
        let hd = hostname.deep_view();
        let sd = so_detectado.deep_view();
        if textos_ascii(vd, hd, sd, ps) {
            let a = ps.map_values(|p: PuertoVisto| minusculas(p.servicio));
            let b = ps.map_values(|p: PuertoVisto| minusculas_ascii(p.servicio));
            assert forall|k: int| 0 <= k < a.len() implies a[k] == b[k] by {
                assert(es_ascii(ps[k].servicio));
            }
            assert(a =~= b);
            assert(rasgos_de(ip@, vd, hd, sd, ps) == rasgos_ascii_de(ip@, vd, hd, sd, ps));
        }
    }
    let r = clasificar_por_rasgos(ip, vendor_min.as_str(), host_min.as_str(), so_min.as_str(), &numeros, &servicios);
    proof {
        let vd = vendor.deep_view();
        let hd = hostname.deep_view();
        let sd = so_detectado.deep_view();
        assert forall|v2: Option<Seq<char>>, h2: Option<Seq<char>>, s2: Option<Seq<char>>, ps2: Seq<PuertoVisto>|
            #[trigger] variante_de_mayusculas(vd, hd, sd, ps, v2, h2, s2, ps2) implies tipo_por_rasgos(
            rasgos_de(ip@, v2, h2, s2, ps2),
        ) == r@ by {
            assert(igual_sin_mayusculas(o_vacio(vd), o_vacio(v2)));
            assert(igual_sin_mayusculas(o_vacio(hd), o_vacio(h2)));
            assert(igual_sin_mayusculas(o_vacio(sd), o_vacio(s2)));
            lema_mismos_numeros(ps, ps2);
            let a = ps.map_values(|p: PuertoVisto| minusculas(p.servicio));
            let b = ps2.map_values(|p: PuertoVisto| minusculas(p.servicio));
            assert forall|k: int| 0 <= k < a.len() implies a[k] == b[k] by {
                assert(igual_sin_mayusculas(ps[k].servicio, ps2[k].servicio));
            }
            assert(a =~= b);
            assert(rasgos_de(ip@, v2, h2, s2, ps2) == rasgos_de(ip@, vd, hd, sd, ps));
        }
    }
    r
}


// ---------------------------------------------------------------------
// Reports as the rest of the application sees them
// ---------------------------------------------------------------------

/// What a port scan found about a host.
pub struct ResultadoNmap {
    pub host: String,
    pub estado_host: Option<String>,
    pub puertos_abiertos: Vec<PuertoNmap>,
    pub so_detectado: Option<String>,
    pub mac: Option<String>,
    pub vendor: Option<String>,
    pub hostname: Option<String>,
    pub tipo_inferido: String,
    /// The whole XML report, kept so that nothing the reader skipped is lost.
    pub xml_crudo: String,
}

/// `r` is what the events `evs` of the report `xml` say of `host`, with the
/// device type inferred from what they say.
pub open spec fn describe_escaneo(r: ResultadoNmap, evs: Seq<EventoXml>, host: Seq<char>, xml: Seq<char>) -> bool {
    let st = plegar_escaneo(evs);
    &&& r.host@ == host
    &&& r.xml_crudo@ == xml
    &&& r.estado_host.deep_view() == st.estado_host
    &&& vistas_puertos(r.puertos_abiertos@) == st.puertos
    &&& r.so_detectado.deep_view() == st.so_detectado
    &&& r.mac.deep_view() == st.mac
    &&& r.vendor.deep_view() == st.vendor
    &&& r.hostname.deep_view() == st.hostname
    &&& r.tipo_inferido@ == tipo_por_rasgos(
        rasgos_de(host, st.vendor, st.hostname, st.so_detectado, st.puertos),
    )
}

fn como_str(o: &Option<String>) -> (r: Option<&str>)
    ensures
        r.deep_view() == o.deep_view(),
{
    match o {
        Some(s) => Some(s.as_str()),
        None => None,
    }
}

/// What the events of a scan report say of `host`.
pub fn procesar_escaneo(eventos: &Vec<EventoXml>, host: &str, xml: &str) -> (r: ResultadoNmap)
    ensures
        describe_escaneo(r, eventos@, host@, xml@),
        forall|i: int| 0 <= i < r.puertos_abiertos@.len() ==> (#[trigger] r.puertos_abiertos@[i]).estado@
            == estado_abierto(),
{
    proof {
        ley_solo_puertos_abiertos(eventos@);
    }
    let st = plegar_escaneo_exec(eventos);
    let tipo = clasificar_dispositivo(
        host,
        como_str(&st.vendor),
        como_str(&st.hostname),
        como_str(&st.so_detectado),
        st.puertos.as_slice(),
    );
    let r = ResultadoNmap {
        host: String::from_str(host),
        estado_host: st.estado_host,
        puertos_abiertos: st.puertos,
        so_detectado: st.so_detectado,
        mac: st.mac,
        vendor: st.vendor,
        hostname: st.hostname,
        tipo_inferido: tipo,
        xml_crudo: String::from_str(xml),
    };
    proof {
        assert forall|i: int| 0 <= i < r.puertos_abiertos@.len() implies (#[trigger] r.puertos_abiertos@[i]).estado@
            == estado_abierto() by {
            assert(vistas_puertos(r.puertos_abiertos@)[i] == r.puertos_abiertos@[i].vista());
        }
    }
    r
}

/// Reads an Nmap port scan report (`nmap -oX -`) of `host`: host state,
/// open ports, MAC address and vendor, host name, detected system and
/// inferred device type, with the report itself. When the report cannot be
/// read to its end, what was read before the error is kept.
pub fn parsear_xml_nmap(xml: &str, host: &str) -> (r: ResultadoNmap)
    ensures
        describe_escaneo(r, eventos_xml(xml@), host@, xml@),
        forall|i: int| 0 <= i < r.puertos_abiertos@.len() ==> (#[trigger] r.puertos_abiertos@[i]).estado@
            == estado_abierto(),
        eventos_xml(xml@).last() is Error ==> describe_escaneo(r, eventos_xml(xml@).drop_last(), host@, xml@),
{
    let eventos = leer_eventos(xml);
    proof {
        if eventos@.last() is Error {
            ley_error_conserva_lo_leido(eventos@.drop_last());
            assert(eventos@.drop_last().push(EventoXml::Error) =~= eventos@);
        }
    }
    procesar_escaneo(&eventos, host, xml)
}

// ---------------------------------------------------------------------
// Network discovery
// ---------------------------------------------------------------------

/// Why a network range is refused.
pub open spec fn error_cidr(red: Seq<char>) -> Option<Seq<char>> {
    match segundo_trozo(red, "/"@) {
        None => Some("Formato inválido, usa notación CIDR (ej. 192.168.1.0/24)"@),
        Some(prefijo) => match natural_de(prefijo, 255) {
            None => Some("Prefijo CIDR inválido"@),
            Some(p) => if p < 16 {
                Some("Por seguridad, no se permiten rangos mayores a /16 (demasiados hosts)"@)
            } else {
                None
            },
        },
    }
}

/// A range is accepted exactly when the text after its first `/` (up to a
/// second one) reads as a prefix length of at least 16; any prefix length
/// below 16 is refused with the /16 message.
pub proof fn ley_cidr_minimo_16(red: Seq<char>)
    ensures
        error_cidr(red) is None <==> (segundo_trozo(red, "/"@) matches Some(p) && (natural_de(p, 255) matches Some(n)
            && n >= 16)),
        (segundo_trozo(red, "/"@) matches Some(p) && (natural_de(p, 255) matches Some(n) && 0 <= n < 16))
            ==> error_cidr(red) == Some("Por seguridad, no se permiten rangos mayores a /16 (demasiados hosts)"@),
{
}

/// Checks a range in CIDR notation before it is scanned: the text after the
/// first `/` (up to a second one) must be a prefix length that fits in a
/// byte, and ranges wider than /16 are refused.
pub fn validar_cidr(red: &str) -> (r: Result<(), String>)
    ensures
        match r {
            Ok(()) => error_cidr(red@) is None,
            Err(e) => error_cidr(red@) == Some(e@),
        },
{
    let barra = "/";
    proof {
        reveal_strlit("/");
    }
    match segundo_trozo_exec(red, barra) {
        None => Err(String::from_str("Formato inválido, usa notación CIDR (ej. 192.168.1.0/24)")),
        Some(prefijo) => match natural_de_exec(prefijo.as_str(), 255) {
            None => Err(String::from_str("Prefijo CIDR inválido")),
            Some(p) => {
                if p < 16 {
                    Err(
                        String::from_str(
                            "Por seguridad, no se permiten rangos mayores a /16 (demasiados hosts)",
                        ),
                    )
                } else {
                    Ok(())
                }
            },
        },
    }
}

/// A device to add to the catalogue.
pub struct DispositivoNuevo {
    pub nombre: String,
    pub tipo: String,
    pub ip: String,
}

/// The hosts whose state is `up`, in order.
pub open spec fn activos(hs: Seq<HostVisto>) -> Seq<HostVisto>
    decreases hs.len(),
{
    if hs.len() == 0 {
        Seq::<HostVisto>::empty()
    } else {
        let r = activos(hs.drop_last());
        if hs.last().estado == Some("up"@) {
            r.push(hs.last())
        } else {
            r
        }
    }
}

/// The name given to a discovered host: its host name, else
/// `Dispositivo <ip>`.
pub open spec fn nombre_para(h: HostVisto) -> Seq<char> {
    match h.hostname {
        Some(n) => n,
        None => "Dispositivo "@ + h.ip,
    }
}

/// The type given to a discovered host: inferred from its address, vendor
/// and host name (a ping sweep lists no ports and no system).
pub open spec fn tipo_para(h: HostVisto) -> Seq<char> {
    tipo_por_rasgos(rasgos_de(h.ip, h.vendor, h.hostname, None, Seq::<PuertoVisto>::empty()))
}

/// `d` is the device planned for the host `h`.
pub open spec fn planificado_para(d: DispositivoNuevo, h: HostVisto) -> bool {
    d.nombre@ == nombre_para(h) && d.tipo@ == tipo_para(h) && d.ip@ == h.ip
}

/// The devices to add for a discovery report: one per host that is up, in
/// order, named and typed as `nombre_para` and `tipo_para` say.
pub fn planificar_descubrimiento(hosts: &Vec<HostDescubierto>) -> (r: Vec<DispositivoNuevo>)
    ensures
        r@.len() == activos(vistas_hosts(hosts@)).len(),
        forall|i: int| 0 <= i < r@.len() ==> planificado_para(#[trigger] r@[i], activos(vistas_hosts(hosts@))[i]),
        forall|i: int| 0 <= i < r@.len() && textos_ascii(
            activos(vistas_hosts(hosts@))[i].vendor,
            activos(vistas_hosts(hosts@))[i].hostname,
            None,
            Seq::<PuertoVisto>::empty(),
        ) ==> (#[trigger] r@[i]).tipo@ == tipo_por_rasgos(
            rasgos_ascii_de(
                activos(vistas_hosts(hosts@))[i].ip,
                activos(vistas_hosts(hosts@))[i].vendor,
                activos(vistas_hosts(hosts@))[i].hostname,
                None,
                Seq::<PuertoVisto>::empty(),
            ),
        ),
{
    let ghost hs = vistas_hosts(hosts@);
    let mut r: Vec<DispositivoNuevo> = Vec::new();
    let mut i: usize = 0;
    assert(hs.take(0) =~= Seq::<HostVisto>::empty());
    while i < hosts.len()
        invariant
            i <= hosts@.len(),
            hs == vistas_hosts(hosts@),
            r@.len() == activos(hs.take(i as int)).len(),
            forall|k: int| 0 <= k < r@.len() ==> planificado_para(#[trigger] r@[k], activos(hs.take(i as int))[k]),
            forall|k: int| 0 <= k < r@.len() && textos_ascii(
                activos(hs.take(i as int))[k].vendor,
                activos(hs.take(i as int))[k].hostname,
                None,
                Seq::<PuertoVisto>::empty(),
            ) ==> (#[trigger] r@[k]).tipo@ == tipo_por_rasgos(
                rasgos_ascii_de(
                    activos(hs.take(i as int))[k].ip,
                    activos(hs.take(i as int))[k].vendor,
                    activos(hs.take(i as int))[k].hostname,
                    None,
                    Seq::<PuertoVisto>::empty(),
                ),
            ),
        decreases hosts@.len() - i,
    {
        let h = &hosts[i];
        assert(hs.take(i + 1).drop_last() =~= hs.take(i as int));
        assert(hs.take(i + 1).last() == h.vista());
        let arriba = match &h.estado {
            Some(e) => iguales(e.as_str(), "up"),
            None => false,
        };
        if arriba {
            let nombre = match &h.hostname {
                Some(n) => n.clone(),
                None => {
                    let mut t = String::from_str("Dispositivo ");
                    t.append(h.ip.as_str());
                    t
                },
            };
            let tipo = clasificar_dispositivo(
                h.ip.as_str(),
                como_str(&h.vendor),
                como_str(&h.hostname),
                None,
                &[],
            );
            assert(Seq::<PuertoNmap>::empty().map_values(|p: PuertoNmap| p.vista()) =~= Seq::<PuertoVisto>::empty());
            let d = DispositivoNuevo { nombre, tipo, ip: h.ip.clone() };
            let ghost r0 = r@;
            r.push(d);
            assert forall|k: int| 0 <= k < r@.len() implies planificado_para(#[trigger] r@[k], activos(hs.take(i + 1))[k]) by {
                if k < r0.len() {
                    assert(r@[k] == r0[k]);
                }
            }
            assert forall|k: int| 0 <= k < r@.len() && textos_ascii(
                activos(hs.take(i + 1))[k].vendor,
                activos(hs.take(i + 1))[k].hostname,
                None,
                Seq::<PuertoVisto>::empty(),
            ) implies (#[trigger] r@[k]).tipo@ == tipo_por_rasgos(
                rasgos_ascii_de(
                    activos(hs.take(i + 1))[k].ip,
                    activos(hs.take(i + 1))[k].vendor,
                    activos(hs.take(i + 1))[k].hostname,
                    None,
                    Seq::<PuertoVisto>::empty(),
                ),
            ) by {
                if k < r0.len() {
                    assert(r@[k] == r0[k]);
                }
            }
        }
        i = i + 1;
    }
    assert(hs.take(hosts@.len() as int) =~= hs);
    r
}


// ---------------------------------------------------------------------
// Periodic scans
// ---------------------------------------------------------------------

/// Default period of the periodic scan, in seconds.
pub const INTERVALO_NMAP_POR_DEFECTO: u64 = 300;

/// The hosts that `NMAP_HOSTS` (`192.168.1.1,192.168.1.10`) asks to scan
/// periodically; none when it is not set.
pub fn hosts_periodicos(valor: Option<&str>) -> (r: Vec<String>)
    ensures
        vistas(r@) == lista_separada(o_vacio(valor.deep_view())),
{
    match valor {
        Some(v) => lista_separada_exec(v),
        None => {
            let vacio = "";
            proof {
                reveal_strlit("");
            }
            assert(vacio@ =~= Seq::<char>::empty());
            lista_separada_exec(vacio)
        },
    }
}

} // verus!

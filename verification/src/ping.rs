//! Connectivity tests with the system's `ping`: one echo request, at most
//! two seconds of wait. Running `ping` is done by the application; this
//! module reads its output.

use vstd::prelude::*;
use crate::texto::{
    primera_palabra, primera_palabra_exec, segundo_trozo, segundo_trozo_exec, sin_sufijos,
    sin_sufijos_exec,
};

verus! {

/// The result of a ping to a host.
pub struct ResultadoPing {
    pub en_linea: bool,
    pub latencia_ms: Option<String>,
}

/// The latency that `ping` printed, in milliseconds: the word after the
/// first `time=`, without its `ms` unit.
pub open spec fn latencia_de(salida: Seq<char>) -> Option<Seq<char>> {
    match segundo_trozo(salida, "time="@) {
        None => None,
        Some(resto) => match primera_palabra(resto) {
            None => None,
            Some(palabra) => Some(sin_sufijos(palabra, "ms"@)),
        },
    }
}

/// Reads the latency out of `ping`'s output (see `latencia_de`).
pub fn extraer_latencia(salida: &str) -> (r: Option<String>)
    ensures
        r.deep_view() == latencia_de(salida@),
{
    let patron = "time=";
    let ms = "ms";
    proof {
        reveal_strlit("time=");
        reveal_strlit("ms");
    }
    match segundo_trozo_exec(salida, patron) {
        None => None,
        Some(resto) => match primera_palabra_exec(resto.as_str()) {
            None => None,
            Some(palabra) => Some(sin_sufijos_exec(palabra.as_str(), ms)),
        },
    }
}

/// The result of a ping: the host is online when `ping` succeeded; the
/// latency is read from what it printed.
pub fn resultado_ping(exito: bool, salida: &str) -> (r: ResultadoPing)
    ensures
        r.en_linea == exito,
        r.latencia_ms.deep_view() == latencia_de(salida@),
{
    ResultadoPing { en_linea: exito, latencia_ms: extraer_latencia(salida) }
}

/// What a ping means for a device of the catalogue.
pub struct DecisionPing {
    /// The state to store: `online` or `offline`.
    pub nuevo_estado: String,
    /// The alert to raise, with its severity and message, when the state
    /// changed.
    pub alerta: Option<(String, String)>,
}

/// The state a ping gives.
pub open spec fn estado_por_ping(en_linea: bool) -> Seq<char> {
    if en_linea {
        "online"@
    } else {
        "offline"@
    }
}

/// The alert a state change raises: critical when the device stopped
/// answering, informative when it answers again.
pub open spec fn alerta_por_cambio(nombre: Seq<char>, ip: Seq<char>, en_linea: bool) -> (Seq<char>, Seq<char>) {
    if en_linea {
        ("info"@, nombre + " volvió a responder ("@ + ip + ")"@)
    } else {
        ("critica"@, nombre + " dejó de responder ("@ + ip + ")"@)
    }
}

/// A ping raises an alert when the state it gives differs from the stored
/// one.
pub open spec fn genera_alerta(estado_previo: Seq<char>, en_linea: bool) -> bool {
    estado_previo != estado_por_ping(en_linea)
}

/// Decides what a ping means for a device whose stored state is
/// `estado_previo`: the new state, and an alert only when the state
/// changed, so that pinging a device again does not repeat it.
pub fn decidir_ping(estado_previo: &str, nombre: &str, ip: &str, en_linea: bool) -> (r: DecisionPing)
    ensures
        r.nuevo_estado@ == estado_por_ping(en_linea),
        r.alerta is Some <==> genera_alerta(estado_previo@, en_linea),
        r.alerta matches Some((sev, msg)) ==> (sev@, msg@) == alerta_por_cambio(nombre@, ip@, en_linea),
{
    let nuevo = if en_linea {
        String::from_str("online")
    } else {
        String::from_str("offline")
    };
    if crate::texto::iguales(estado_previo, nuevo.as_str()) {
        return DecisionPing { nuevo_estado: nuevo, alerta: None };
    }
    let mut mensaje = String::from_str(nombre);
    let severidad = if en_linea {
        mensaje.append(" volvió a responder (");
        String::from_str("info")
    } else {
        mensaje.append(" dejó de responder (");
        String::from_str("critica")
    };
    mensaje.append(ip);
    mensaje.append(")");
    DecisionPing { nuevo_estado: nuevo, alerta: Some((severidad, mensaje)) }
}

/// Pinging again with the same outcome, once the new state is stored,
/// raises no alert.
pub proof fn ley_ping_repetido_sin_alerta(estado_previo: Seq<char>, en_linea: bool)
    ensures
        !genera_alerta(estado_por_ping(en_linea), en_linea),
{
}

} // verus!

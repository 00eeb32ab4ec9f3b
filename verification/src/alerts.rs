//! Alerts: every alert is stored; only critical ones are also mailed. This
//! module decides which alerts are mailed, writes the mail, and checks the
//! sender and recipient addresses; storing and sending are done by the
//! application.

use vstd::prelude::*;
use lettre::message::Mailbox;
use crate::texto::iguales;

verus! {

/// The severity whose alerts are mailed.
pub open spec fn severidad_critica() -> Seq<char> {
    "critica"@
}

/// A mail about an alert.
pub struct CorreoAlerta {
    pub asunto: String,
    pub cuerpo: String,
}

/// The subject of the mail about an alert of type `tipo`.
pub open spec fn asunto_de(tipo: Seq<char>) -> Seq<char> {
    "[Juno] Alerta crítica: "@ + tipo
}

/// The body of the mail about an alert: the message, then its origin when
/// it has one.
pub open spec fn cuerpo_de(mensaje: Seq<char>, origen: Option<Seq<char>>) -> Seq<char> {
    match origen {
        Some(o) => mensaje + "\n\nOrigen: "@ + o,
        None => mensaje,
    }
}

/// The mail to send for an alert: one only when the severity is `critica`.
pub fn correo_para_alerta(tipo: &str, severidad: &str, mensaje: &str, origen: Option<&str>) -> (r: Option<CorreoAlerta>)
    ensures
        r is Some <==> severidad@ == severidad_critica(),
        r matches Some(c) ==> c.asunto@ == asunto_de(tipo@) && c.cuerpo@ == cuerpo_de(mensaje@, origen.deep_view()),
{
    if !iguales(severidad, "critica") {
        return None;
    }
    let mut asunto = String::from_str("[Juno] Alerta crítica: ");
    asunto.append(tipo);
    let mut cuerpo = String::from_str(mensaje);
    match origen {
        Some(o) => {
            cuerpo.append("\n\nOrigen: ");
            cuerpo.append(o);
        },
        None => {},
    }
    Some(CorreoAlerta { asunto, cuerpo })
}

// ---------------------------------------------------------------------
// Sender and recipient
// ---------------------------------------------------------------------

#[verifier::external_type_specification]
#[verifier::external_body]
pub struct ExMailbox(Mailbox);

/// Whether `lettre` reads `s` as a mailbox (`Name <user@domain>` or
/// `user@domain`).
pub uninterp spec fn buzon_valido(s: Seq<char>) -> bool;

/// The message of the error that `lettre` gives when it cannot read `s`
/// as a mailbox.
pub uninterp spec fn error_buzon(s: Seq<char>) -> Seq<char>;

/// A mailbox as `lettre` read it, with the text it was read from. Only
/// `analizar_buzon` makes one.
pub struct Buzon {
    buzon: Mailbox,
    texto: String,
}

impl Buzon {
    /// The text the mailbox was read from.
    pub closed spec fn texto(&self) -> Seq<char> {
        self.texto@
    }

    /// The mailbox that was read.
    pub closed spec fn leido(&self) -> Mailbox {
        self.buzon
    }

    /// Gives up the mailbox that was read.
    pub fn en_buzon(self) -> (r: Mailbox)
        ensures
            r == self.leido(),
    {
        self.buzon
    }
}

/// Calls `<Mailbox as FromStr>::from_str` and keeps the mailbox with the
/// text it was read from; the error becomes its message. The answer depends
/// on the text alone.
#[verifier::external_body]
fn analizar_buzon(s: &str) -> (r: Result<Buzon, String>)
    ensures
        r is Ok <==> buzon_valido(s@),
        r matches Ok(b) ==> b.texto() == s@,
        r matches Err(e) ==> e@ == error_buzon(s@),
{
    s.parse::<Mailbox>().map(|m| Buzon { buzon: m, texto: s.to_string() }).map_err(|e| e.to_string())
}

/// What is needed to send alert mails.
pub struct EnvioCorreo {
    /// The sender, read from the SMTP user.
    pub remitente: Buzon,
    /// The recipient.
    pub receptor: Buzon,
    /// SMTP user (the sender's address).
    pub usuario: String,
    /// SMTP password (an application password).
    pub password: String,
}

/// The address mails go to: `ALERT_EMAIL_TO` when set, else the sender.
pub open spec fn destino_de(usuario: Seq<char>, destino: Option<Seq<char>>) -> Seq<char> {
    match destino {
        Some(d) => d,
        None => usuario,
    }
}

/// Why mails cannot be sent with this configuration (`GMAIL_USER`,
/// `GMAIL_PASS`, `ALERT_EMAIL_TO`), if they can't.
pub open spec fn error_envio(
    usuario: Option<Seq<char>>,
    password: Option<Seq<char>>,
    destino: Option<Seq<char>>,
) -> Option<Seq<char>> {
    match (usuario, password) {
        (None, _) => Some("GMAIL_USER no está definida"@),
        (Some(_), None) => Some("GMAIL_PASS no está definida"@),
        (Some(u), Some(_)) => if !buzon_valido(u) {
            Some("GMAIL_USER no es un correo válido: "@ + error_buzon(u))
        } else if !buzon_valido(destino_de(u, destino)) {
            Some("ALERT_EMAIL_TO no es un correo válido: "@ + error_buzon(destino_de(u, destino)))
        } else {
            None
        },
    }
}

/// Checks the mail configuration and reads the sender and recipient.
pub fn preparar_envio(
    usuario: Option<String>,
    password: Option<String>,
    destino: Option<String>,
) -> (r: Result<EnvioCorreo, String>)
    ensures
        match r {
            Ok(e) => error_envio(usuario.deep_view(), password.deep_view(), destino.deep_view())
                is None && e.usuario@ == usuario.deep_view()->0 && e.password@
                == password.deep_view()->0 && e.remitente.texto() == usuario.deep_view()->0
                && e.receptor.texto() == destino_de(usuario.deep_view()->0, destino.deep_view()),
            Err(m) => error_envio(usuario.deep_view(), password.deep_view(), destino.deep_view())
                == Some(m@),
        },
{
    let usuario = match usuario {
        Some(u) => u,
        None => return Err(String::from_str("GMAIL_USER no está definida")),
    };
    let password = match password {
        Some(p) => p,
        None => return Err(String::from_str("GMAIL_PASS no está definida")),
    };
    let destino = match destino {
        Some(d) => d,
        None => usuario.clone(),
    };
    let remitente = match analizar_buzon(usuario.as_str()) {
        Ok(m) => m,
        Err(e) => {
            let mut m = String::from_str("GMAIL_USER no es un correo válido: ");
            m.append(e.as_str());
            return Err(m);
        },
    };
    let receptor = match analizar_buzon(destino.as_str()) {
        Ok(m) => m,
        Err(e) => {
            let mut m = String::from_str("ALERT_EMAIL_TO no es un correo válido: ");
            m.append(e.as_str());
            return Err(m);
        },
    };
    Ok(EnvioCorreo { remitente, receptor, usuario, password })
}

} // verus!

//! Decisions of the HTTP API and of the command-line tool that creates
//! users: which query a request asks for, which network range to scan,
//! which origins CORS lets in, which port to listen on, and what the
//! command-line arguments say. Serving requests and talking to the
//! database are done by the application.

use vstd::prelude::*;
use vstd::utf8::encode_utf8;
use crate::texto::{
    ajuste_o, ajuste_u16, iguales, lista_separada, lista_separada_exec, recortar, recortar_texto,
    vistas,
};

verus! {

/// Events returned when a request does not say how many.
pub const LIMITE_EVENTOS_POR_DEFECTO: i64 = 100;

/// Alerts listed by the alerts endpoint.
pub const LIMITE_ALERTAS_PANEL: i64 = 100;

/// Port the API listens on by default.
pub const PUERTO_POR_DEFECTO: u16 = 8080;

/// A query on the event collection.
pub enum ConsultaEventos {
    /// The latest events of one host, of any type.
    PorOrigen { origen: String, limite: i64 },
    /// The latest events of one type.
    PorTipo { tipo: String, limite: i64 },
}

/// The query that `GET /api/eventos` asks for: by origin when an origin is
/// given (with or without a type), else by type; `None` when neither is
/// given (a bad request). The limit defaults to 100.
pub fn consulta_eventos(
    tipo: Option<String>,
    origen: Option<String>,
    limite: Option<i64>,
) -> (r: Option<ConsultaEventos>)
    ensures
        ({
            let l = match limite {
                Some(l) => l,
                None => LIMITE_EVENTOS_POR_DEFECTO,
            };
            match (tipo, origen) {
                (_, Some(o)) => r matches Some(ConsultaEventos::PorOrigen { origen, limite }) && origen@
                    == o@ && limite == l,
                (Some(t), None) => r matches Some(ConsultaEventos::PorTipo { tipo, limite }) && tipo@
                    == t@ && limite == l,
                (None, None) => r is None,
            }
        }),
{
    let l = match limite {
        Some(l) => l,
        None => LIMITE_EVENTOS_POR_DEFECTO,
    };
    match (tipo, origen) {
        (_, Some(o)) => Some(ConsultaEventos::PorOrigen { origen: o, limite: l }),
        (Some(t), None) => Some(ConsultaEventos::PorTipo { tipo: t, limite: l }),
        (None, None) => None,
    }
}

/// The range that `POST /api/nmap/descubrir` scans: the one requested,
/// unless it is missing or blank, else the configured `NETWORK_CIDR`.
pub fn red_a_escanear(pedida: Option<String>, por_defecto: Option<String>) -> (r: Option<String>)
    ensures
        r.deep_view() == (match pedida.deep_view() {
            Some(p) => if recortar(p).len() > 0 {
                Some(p)
            } else {
                por_defecto.deep_view()
            },
            None => por_defecto.deep_view(),
        }),
{
    match pedida {
        Some(p) => {
            let t = recortar_texto(p.as_str());
            if t.unicode_len() > 0 {
                Some(p)
            } else {
                por_defecto
            }
        },
        None => por_defecto,
    }
}

/// The origins CORS lets in: the comma-separated list in
/// `FRONTEND_ORIGIN`, or `http://localhost` when it is not set.
pub fn origenes_cors(valor: Option<&str>) -> (r: Vec<String>)
    ensures
        vistas(r@) == lista_separada(
            match valor.deep_view() {
                Some(v) => v,
                None => "http://localhost"@,
            },
        ),
{
    match valor {
        Some(v) => lista_separada_exec(v),
        None => lista_separada_exec("http://localhost"),
    }
}

/// The port to listen on: `PORT` when it reads as a port number, else 8080.
pub fn puerto_servidor(valor: Option<&str>) -> (r: u16)
    ensures
        r == ajuste_o(valor.deep_view(), u16::MAX as int, PUERTO_POR_DEFECTO as int),
{
    ajuste_u16(valor, PUERTO_POR_DEFECTO)
}

// ---------------------------------------------------------------------
// Creating users from the command line
// ---------------------------------------------------------------------

/// What `crear_admin <username> <password> [rol]` asks for.
pub struct ArgumentosAdmin {
    pub username: String,
    pub password: String,
    pub rol: String,
}

/// Why the arguments are refused.
pub enum ErrorArgumentos {
    /// Fewer than two arguments after the program name.
    Uso,
    /// The password has fewer than 8 bytes.
    ContrasenaCorta,
}

/// Shortest password accepted, in bytes of UTF-8.
pub const LONGITUD_MINIMA_CONTRASENA: usize = 8;

/// Reads the arguments of `crear_admin` (`args[0]` is the program): a user
/// name, a password of at least 8 bytes, and a role that defaults to
/// `admin`.
pub fn argumentos_admin(args: &Vec<String>) -> (r: Result<ArgumentosAdmin, ErrorArgumentos>)
    ensures
        args@.len() < 3 ==> (r matches Err(e) && e is Uso),
        args@.len() >= 3 && encode_utf8(args@[2]@).len() < 8 ==> (r matches Err(e) && e is ContrasenaCorta),
        args@.len() >= 3 && encode_utf8(args@[2]@).len() >= 8 ==> (r matches Ok(a) && a.username@
            == args@[1]@ && a.password@ == args@[2]@ && a.rol@ == (if args@.len() > 3 {
            args@[3]@
        } else {
            "admin"@
        })),
{
    if args.len() < 3 {
        return Err(ErrorArgumentos::Uso);
    }
    if args[2].as_str().as_bytes().len() < LONGITUD_MINIMA_CONTRASENA {
        return Err(ErrorArgumentos::ContrasenaCorta);
    }
    let rol = if args.len() > 3 {
        args[3].clone()
    } else {
        String::from_str("admin")
    };
    Ok(ArgumentosAdmin { username: args[1].clone(), password: args[2].clone(), rol })
}

} // verus!

//! NetFlow datagrams.
//!
//! Version 5 has a fixed layout and is decoded here byte by byte: a
//! 24-byte header whose first two bytes hold the version (5) and whose
//! bytes 2-3 hold the number of records, then that many 48-byte flow
//! records. A datagram that announces more records than it carries is
//! refused. Versions 9 and IPFIX depend on templates that arrive in earlier
//! datagrams, so they are handed to the stateful parser of the
//! `netflow_parser` crate.

use vstd::prelude::*;
use netflow_parser::NetflowParser;

verus! {

/// Size of the NetFlow v5 header.
pub const TAM_CABECERA_V5: usize = 24;

/// Size of a NetFlow v5 flow record.
pub const TAM_REGISTRO_V5: usize = 48;

/// A decoded NetFlow v5 flow record.
pub struct FlujoV5 {
    pub ip_origen: [u8; 4],
    pub ip_destino: [u8; 4],
    pub ip_siguiente_salto: [u8; 4],
    pub puerto_origen: u16,
    pub puerto_destino: u16,
    pub paquetes: u32,
    pub bytes: u32,
    pub protocolo: u8,
    pub tos: u8,
    pub tcp_flags: u8,
}

/// The big-endian 16-bit number at `d[i..i + 2]`.
pub open spec fn be16(d: Seq<u8>, i: int) -> int {
    d[i] as int * 256 + d[i + 1] as int
}

/// The big-endian 32-bit number at `d[i..i + 4]`.
pub open spec fn be32(d: Seq<u8>, i: int) -> int {
    ((d[i] as int * 256 + d[i + 1] as int) * 256 + d[i + 2] as int) * 256 + d[i + 3] as int
}

/// `f` is the flow record stored at `d[i..i + 48]`.
pub open spec fn flujo_v5_en(f: FlujoV5, d: Seq<u8>, i: int) -> bool {
    &&& f.ip_origen@ == d.subrange(i, i + 4)
    &&& f.ip_destino@ == d.subrange(i + 4, i + 8)
    &&& f.ip_siguiente_salto@ == d.subrange(i + 8, i + 12)
    &&& f.paquetes == be32(d, i + 16)
    &&& f.bytes == be32(d, i + 20)
    &&& f.puerto_origen == be16(d, i + 32)
    &&& f.puerto_destino == be16(d, i + 34)
    &&& f.tcp_flags == d[i + 37]
    &&& f.protocolo == d[i + 38]
    &&& f.tos == d[i + 39]
}

/// Number of records announced by a v5 header.
pub open spec fn cantidad_v5(d: Seq<u8>) -> int {
    be16(d, 2)
}

/// `d` is a complete NetFlow v5 datagram: a whole header with version 5,
/// and at least as many bytes as the records it announces need.
pub open spec fn es_v5(d: Seq<u8>) -> bool {
    &&& d.len() >= 24
    &&& be16(d, 0) == 5
    &&& d.len() >= 24 + 48 * cantidad_v5(d)
}

/// `v` holds, in order, the records of the v5 datagram `d`.
pub open spec fn flujos_v5(d: Seq<u8>, v: Seq<FlujoV5>) -> bool {
    &&& v.len() == cantidad_v5(d)
    &&& forall|k: int| 0 <= k < v.len() ==> flujo_v5_en(#[trigger] v[k], d, 24 + 48 * k)
}

fn leer_be16(d: &[u8], i: usize) -> (r: u16)
    requires
        i + 2 <= d@.len(),
    ensures
        r as int == be16(d@, i as int),
{
    (d[i] as u16) * 256 + (d[i + 1] as u16)
}

fn leer_be32(d: &[u8], i: usize) -> (r: u32)
    requires
        i + 4 <= d@.len(),
    ensures
        r as int == be32(d@, i as int),
{
    let a = d[i] as u32;
    let b = d[i + 1] as u32;
    let c = d[i + 2] as u32;
    let e = d[i + 3] as u32;
    ((a * 256 + b) * 256 + c) * 256 + e
}

fn leer_ipv4(d: &[u8], i: usize) -> (r: [u8; 4])
    requires
        i + 4 <= d@.len(),
    ensures
        r@ == d@.subrange(i as int, i + 4),
{
    let r = [d[i], d[i + 1], d[i + 2], d[i + 3]];
    assert(r@ =~= d@.subrange(i as int, i + 4));
    r
}

/// Decodes the flow record at `d[i..i + 48]`.
fn leer_flujo_v5(d: &[u8], i: usize) -> (f: FlujoV5)
    requires
        i + 48 <= d@.len(),
    ensures
        flujo_v5_en(f, d@, i as int),
{
    let n = d.len();
    assert(i + 48 <= n);
    FlujoV5 {
        ip_origen: leer_ipv4(d, i),
        ip_destino: leer_ipv4(d, i + 4),
        ip_siguiente_salto: leer_ipv4(d, i + 8),
        paquetes: leer_be32(d, i + 16),
        bytes: leer_be32(d, i + 20),
        puerto_origen: leer_be16(d, i + 32),
        puerto_destino: leer_be16(d, i + 34),
        tcp_flags: d[i + 37],
        protocolo: d[i + 38],
        tos: d[i + 39],
    }
}

/// Decodes a NetFlow v5 datagram: `None` when it is shorter than a header,
/// when its version is not 5, or when it carries fewer bytes than the
/// records it announces; otherwise the announced count and the records.
pub fn parsear_netflow_v5(datos: &[u8]) -> (r: Option<(u16, Vec<FlujoV5>)>)
    ensures
        r is Some <==> es_v5(datos@),
        r matches Some((c, v)) ==> c == cantidad_v5(datos@) && flujos_v5(datos@, v@),
{
    if datos.len() < TAM_CABECERA_V5 {
        return None;
    }
    let version = leer_be16(datos, 0);
    if version != 5 {
        return None;
    }
    let count = leer_be16(datos, 2) as usize;
    if datos.len() < TAM_CABECERA_V5 + count * TAM_REGISTRO_V5 {
        return None;
    }
    let mut flujos: Vec<FlujoV5> = Vec::new();
    let mut i: usize = 0;
    while i < count
        invariant
            count == cantidad_v5(datos@),
            24 + 48 * count <= datos@.len(),
            i <= count,
            flujos@.len() == i,
            forall|k: int| 0 <= k < i ==> flujo_v5_en(#[trigger] flujos@[k], datos@, 24 + 48 * k),
        decreases count - i,
    {
        let inicio = TAM_CABECERA_V5 + i * TAM_REGISTRO_V5;
        flujos.push(leer_flujo_v5(datos, inicio));
        i = i + 1;
    }
    Some((count as u16, flujos))
}

/// Bytes after a complete v5 datagram change nothing in how it is read:
/// the datagram stays complete, announces the same count, and every record
/// reads the same.
pub proof fn ley_v5_ignora_bytes_sobrantes(d: Seq<u8>, extra: Seq<u8>, v: Seq<FlujoV5>)
    requires
        es_v5(d),
    ensures
        es_v5(d + extra),
        cantidad_v5(d + extra) == cantidad_v5(d),
        flujos_v5(d, v) <==> flujos_v5(d + extra, v),
{
    let e = d + extra;
    assert(e[0] == d[0] && e[1] == d[1] && e[2] == d[2] && e[3] == d[3]);
    if flujos_v5(d, v) {
        assert forall|k: int| 0 <= k < v.len() implies flujo_v5_en(#[trigger] v[k], e, 24 + 48 * k) by {
            lema_registro_igual(d, extra, 24 + 48 * k, v[k]);
        }
    }
    if flujos_v5(e, v) {
        assert forall|k: int| 0 <= k < v.len() implies flujo_v5_en(#[trigger] v[k], d, 24 + 48 * k) by {
            lema_registro_igual(d, extra, 24 + 48 * k, v[k]);
        }
    }
}

proof fn lema_registro_igual(d: Seq<u8>, extra: Seq<u8>, i: int, f: FlujoV5)
    requires
        0 <= i,
        i + 48 <= d.len(),
    ensures
        flujo_v5_en(f, d, i) == flujo_v5_en(f, d + extra, i),
{
    let e = d + extra;
    assert(d.subrange(i, i + 4) =~= e.subrange(i, i + 4));
    assert(d.subrange(i + 4, i + 8) =~= e.subrange(i + 4, i + 8));
    assert(d.subrange(i + 8, i + 12) =~= e.subrange(i + 8, i + 12));
    assert forall|m: int| i <= m < i + 48 implies e[m] == d[m] by {}
}

/// Where each field of a record of a v5 datagram comes from: record `k` starts at
/// byte `24 + 48 k`; the addresses are bytes 0-3, 4-7 and 8-11 of the
/// record, the packet and byte counts the big-endian 32-bit numbers at 16
/// and 20, the source and destination ports the big-endian 16-bit numbers
/// at 32 and 34, and the TCP flags, protocol and type of service bytes 37,
/// 38 and 39.
pub proof fn ley_campos_v5(d: Seq<u8>, v: Seq<FlujoV5>)
    requires
        es_v5(d),
        flujos_v5(d, v),
    ensures
        forall|k: int| 0 <= k < v.len() ==> {
            let b = 24 + 48 * k;
            &&& (#[trigger] v[k]).ip_origen@ == seq![d[b], d[b + 1], d[b + 2], d[b + 3]]
            &&& v[k].ip_destino@ == seq![d[b + 4], d[b + 5], d[b + 6], d[b + 7]]
            &&& v[k].ip_siguiente_salto@ == seq![d[b + 8], d[b + 9], d[b + 10], d[b + 11]]
            &&& v[k].paquetes == d[b + 16] * 16777216 + d[b + 17] * 65536 + d[b + 18] * 256 + d[b + 19]
            &&& v[k].bytes == d[b + 20] * 16777216 + d[b + 21] * 65536 + d[b + 22] * 256 + d[b + 23]
            &&& v[k].puerto_origen == 256 * d[b + 32] + d[b + 33]
            &&& v[k].puerto_destino == 256 * d[b + 34] + d[b + 35]
            &&& v[k].tcp_flags == d[b + 37]
            &&& v[k].protocolo == d[b + 38]
            &&& v[k].tos == d[b + 39]
        },
{
    assert forall|k: int| 0 <= k < v.len() implies {
        let b = 24 + 48 * k;
        &&& (#[trigger] v[k]).ip_origen@ == seq![d[b], d[b + 1], d[b + 2], d[b + 3]]
        &&& v[k].ip_destino@ == seq![d[b + 4], d[b + 5], d[b + 6], d[b + 7]]
        &&& v[k].ip_siguiente_salto@ == seq![d[b + 8], d[b + 9], d[b + 10], d[b + 11]]
        &&& v[k].paquetes == d[b + 16] * 16777216 + d[b + 17] * 65536 + d[b + 18] * 256 + d[b + 19]
        &&& v[k].bytes == d[b + 20] * 16777216 + d[b + 21] * 65536 + d[b + 22] * 256 + d[b + 23]
        &&& v[k].puerto_origen == 256 * d[b + 32] + d[b + 33]
        &&& v[k].puerto_destino == 256 * d[b + 34] + d[b + 35]
        &&& v[k].tcp_flags == d[b + 37]
        &&& v[k].protocolo == d[b + 38]
        &&& v[k].tos == d[b + 39]
    } by {
        let b = 24 + 48 * k;
        let c = cantidad_v5(d);
        assert(48 * (k + 1) <= 48 * c) by (nonlinear_arith)
            requires
                k + 1 <= c,
        ;
        assert(b + 48 <= d.len());
        assert(flujo_v5_en(v[k], d, b));
        assert(d.subrange(b, b + 4) =~= seq![d[b], d[b + 1], d[b + 2], d[b + 3]]);
        assert(d.subrange(b + 4, b + 8) =~= seq![d[b + 4], d[b + 5], d[b + 6], d[b + 7]]);
        assert(d.subrange(b + 8, b + 12) =~= seq![d[b + 8], d[b + 9], d[b + 10], d[b + 11]]);
    }
}

// ---------------------------------------------------------------------
// Datagrams of any version
// ---------------------------------------------------------------------

#[verifier::external_type_specification]
#[verifier::external_body]
pub struct ExNetflowParser(NetflowParser);

/// Calls `V9Parser::parse` on the parser's v9 state; on success gives the
/// `Debug` text of the parsed packet. The outcome depends on the templates
/// that earlier datagrams left in the parser, so nothing is stated of it.
#[verifier::external_body]
fn analizar_v9(parser: &mut NetflowParser, datos: &[u8]) -> Option<String> {
    parser.v9_parser.parse(datos).ok().map(|p| format!("{:?}", p))
}

/// Calls `IPFixParser::parse` on the parser's IPFIX state; on success gives
/// the `Debug` text of the parsed packet. The outcome depends on the
/// templates that earlier datagrams left in the parser, so nothing is
/// stated of it.
#[verifier::external_body]
fn analizar_ipfix(parser: &mut NetflowParser, datos: &[u8]) -> Option<String> {
    parser.ipfix_parser.parse(datos).ok().map(|p| format!("{:?}", p))
}

/// What a received datagram turned out to be.
pub enum DatagramaNetflow {
    /// A v5 datagram, with its announced count and its records.
    V5 { cantidad: u16, flujos: Vec<FlujoV5> },
    /// A v9 datagram, kept as the text of the parsed packet.
    V9 { detalle: String },
    /// An IPFIX datagram, kept as the text of the parsed packet.
    Ipfix { detalle: String },
    /// Neither v5, v9 nor IPFIX.
    Desconocido,
}

/// Classifies a received datagram: v5 is tried first (decoded here, without
/// touching `parser`), then v9, then IPFIX (both through the stateful
/// `parser`).
pub fn procesar_datagrama(parser: &mut NetflowParser, datos: &[u8]) -> (r: DatagramaNetflow)
    ensures
        r is V5 <==> es_v5(datos@),
        r matches DatagramaNetflow::V5 { cantidad, flujos } ==> cantidad == cantidad_v5(datos@)
            && flujos_v5(datos@, flujos@),
        r is V5 ==> *final(parser) == *old(parser),
{
    if let Some((cantidad, flujos)) = parsear_netflow_v5(datos) {
        return DatagramaNetflow::V5 { cantidad, flujos };
    }
    if let Some(detalle) = analizar_v9(parser, datos) {
        return DatagramaNetflow::V9 { detalle };
    }
    if let Some(detalle) = analizar_ipfix(parser, datos) {
        return DatagramaNetflow::Ipfix { detalle };
    }
    DatagramaNetflow::Desconocido
}

} // verus!

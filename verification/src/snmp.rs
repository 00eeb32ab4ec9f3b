//! SNMP polling configuration. The polling itself (UDP requests through the
//! `snmp` crate) and the CPU/RAM percentages (floats) are done by the
//! application; this module reads which hosts to poll and how often.

use vstd::prelude::*;
use crate::texto::{
    lista_separada, lista_separada_exec, partir_en_dos, partir_en_dos_exec, recortar,
    recortar_texto, vistas,
};

verus! {

/// Default polling period, in seconds.
pub const INTERVALO_SNMP_POR_DEFECTO: u64 = 30;

/// A host to poll and its community.
pub struct HostSnmp {
    pub host: String,
    pub community: String,
}

/// An entry `host:community` of `SNMP_HOSTS` (already trimmed): the host
/// is the text before the first `:`; the community is the rest, or
/// `public` when there is no `:`; both trimmed.
pub open spec fn entrada_snmp(e: Seq<char>) -> (Seq<char>, Seq<char>) {
    let (h, c) = partir_en_dos(e, ":"@);
    (
        recortar(h),
        match c {
            Some(c) => recortar(c),
            None => "public"@,
        },
    )
}

/// The hosts of `SNMP_HOSTS` (`host:community,host2:community2`), in
/// order; empty entries are skipped.
pub open spec fn hosts_snmp(s: Seq<char>) -> Seq<(Seq<char>, Seq<char>)> {
    lista_separada(s).map_values(|e: Seq<char>| entrada_snmp(e))
}

/// Reads the value of `SNMP_HOSTS` (see `hosts_snmp`).
pub fn parsear_hosts_snmp(s: &str) -> (r: Vec<HostSnmp>)
    ensures
        r@.len() == hosts_snmp(s@).len(),
        forall|i: int| 0 <= i < r@.len() ==> (#[trigger] r@[i]).host@ == hosts_snmp(s@)[i].0
            && r@[i].community@ == hosts_snmp(s@)[i].1,
{
    let entradas = lista_separada_exec(s);
    let mut r: Vec<HostSnmp> = Vec::new();
    let mut i: usize = 0;
    let dos_puntos = ":";
    let public = "public";
    proof {
        reveal_strlit(":");
        reveal_strlit("public");
    }
    while i < entradas.len()
        invariant
            i <= entradas@.len(),
            vistas(entradas@) == lista_separada(s@),
            dos_puntos@ == ":"@,
            dos_puntos@.len() == 1,
            public@ == "public"@,
            r@.len() == i,
            forall|k: int| 0 <= k < i ==> (#[trigger] r@[k]).host@ == hosts_snmp(s@)[k].0
                && r@[k].community@ == hosts_snmp(s@)[k].1,
        decreases entradas@.len() - i,
    {
        assert(entradas@[i as int]@ == vistas(entradas@)[i as int]);
        let (h, c) = partir_en_dos_exec(entradas[i].as_str(), dos_puntos);
        let host = recortar_texto(h.as_str());
        let community = match c {
            Some(c) => recortar_texto(c.as_str()),
            None => String::from_str(public),
        };
        let ghost r0 = r@;
        r.push(HostSnmp { host, community });
        assert forall|k: int| 0 <= k < i + 1 implies (#[trigger] r@[k]).host@ == hosts_snmp(s@)[k].0
            && r@[k].community@ == hosts_snmp(s@)[k].1 by {
            if k < i {
                assert(r@[k] == r0[k]);
            } else {
                let e = lista_separada(s@)[k];
                assert(hosts_snmp(s@)[k] == entrada_snmp(e));
                assert(e == entradas@[k]@);
            }
        }
        i = i + 1;
    }
    r
}

// ---------------------------------------------------------------------
// One polling round
// ---------------------------------------------------------------------

/// What the query of one OID gave: the text of the response, or the text
/// of the error.
pub enum LecturaOid {
    Respuesta(String),
    SinRespuesta(String),
}

/// The value kept for an OID in the stored reading: the response's text,
/// or `sin respuesta: ` and the error's text.
pub open spec fn valor_guardado(l: LecturaOid) -> Seq<char> {
    match l {
        LecturaOid::Respuesta(t) => t@,
        LecturaOid::SinRespuesta(e) => "sin respuesta: "@ + e@,
    }
}

/// Some OID answered.
pub open spec fn alguna_respuesta(lecturas: Seq<(String, LecturaOid)>) -> bool {
    exists|i: int| 0 <= i < lecturas.len() && #[trigger] lecturas[i].1 is Respuesta
}

/// The error of a round in which no OID answered.
pub open spec fn error_sin_respuestas(host: Seq<char>) -> Seq<char> {
    "ningún OID respondió en "@ + host + " (revisa host/community/firewall)"@
}

/// Sums up one polling round of `host`: the value kept for each OID, named
/// and in order, unless no OID answered, which is an error.
pub fn resumen_snmp(host: &str, lecturas: &Vec<(String, LecturaOid)>) -> (r: Result<Vec<(String, String)>, String>)
    ensures
        r is Err <==> !alguna_respuesta(lecturas@),
        r matches Err(e) ==> e@ == error_sin_respuestas(host@),
        r matches Ok(v) ==> v@.len() == lecturas@.len() && forall|i: int|
            0 <= i < v@.len() ==> (#[trigger] v@[i]).0@ == lecturas@[i].0@ && v@[i].1@
                == valor_guardado(lecturas@[i].1),
{
    let mut v: Vec<(String, String)> = Vec::new();
    let mut alguna = false;
    let mut i: usize = 0;
    let prefijo = "sin respuesta: ";
    proof {
        reveal_strlit("sin respuesta: ");
    }
    while i < lecturas.len()
        invariant
            i <= lecturas@.len(),
            prefijo@ == "sin respuesta: "@,
            v@.len() == i,
            alguna <==> exists|k: int| 0 <= k < i && #[trigger] lecturas@[k].1 is Respuesta,
            forall|k: int| 0 <= k < i ==> (#[trigger] v@[k]).0@ == lecturas@[k].0@ && v@[k].1@
                == valor_guardado(lecturas@[k].1),
        decreases lecturas@.len() - i,
    {
        let (nombre, lectura) = &lecturas[i];
        let valor = match lectura {
            LecturaOid::Respuesta(t) => {
                alguna = true;
                t.clone()
            },
            LecturaOid::SinRespuesta(e) => {
                let mut t = String::from_str(prefijo);
                t.append(e.as_str());
                t
            },
        };
        let ghost v0 = v@;
        v.push((nombre.clone(), valor));
        assert forall|k: int| 0 <= k < i + 1 implies (#[trigger] v@[k]).0@ == lecturas@[k].0@ && v@[k].1@
            == valor_guardado(lecturas@[k].1) by {
            if k < i {
                assert(v@[k] == v0[k]);
            }
        }
        i = i + 1;
    }
    if !alguna {
        let mut e = String::from_str("ningún OID respondió en ");
        e.append(host);
        e.append(" (revisa host/community/firewall)");
        return Err(e);
    }
    Ok(v)
}

} // verus!

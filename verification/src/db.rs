//! Records of the database that the library's logic reads, and the limits
//! that the queries apply.

use vstd::prelude::*;

verus! {

/// A dashboard user. `password_hash` is an Argon2id PHC string.
pub struct Usuario {
    pub id: i32,
    pub username: String,
    pub password_hash: String,
    pub rol: String,
}

/// Number of NetFlow events received during one minute.
pub struct PuntosTraficoNetflow {
    pub hora: String,
    pub cantidad_flujos: i64,
}

/// A NetFlow exporter and how many events it sent.
pub struct HostNetflowTop {
    pub origen: String,
    pub flujos: i64,
}

/// `x` brought into `[lo, hi]`, as `Ord::clamp` does.
pub open spec fn acotar(x: int, lo: int, hi: int) -> int {
    if x < lo {
        lo
    } else if x > hi {
        hi
    } else {
        x
    }
}

/// How many events a query may return: what was asked, between 1 and 1000.
pub fn limite_eventos(pedido: i64) -> (r: i64)
    ensures
        r == acotar(pedido as int, 1, 1000),
{
    if pedido < 1 {
        1
    } else if pedido > 1000 {
        1000
    } else {
        pedido
    }
}

/// How many alerts a query may return: what was asked, between 1 and 500.
pub fn limite_alertas(pedido: i64) -> (r: i64)
    ensures
        r == acotar(pedido as int, 1, 500),
{
    if pedido < 1 {
        1
    } else if pedido > 500 {
        500
    } else {
        pedido
    }
}

} // verus!

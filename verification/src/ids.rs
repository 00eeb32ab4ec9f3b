//! Anomaly detection on NetFlow traffic: when the Shannon entropy of the
//! traffic per exporter reaches a threshold, the traffic is spread over
//! unusually many sources (a scan, or a compromised host). The entropy is a
//! float and is computed and compared by the application; this module
//! keeps the monitor's state and decides when to raise an alert: only when
//! the traffic *becomes* anomalous, not at every evaluation while it stays
//! so.

use vstd::prelude::*;
use crate::db::HostNetflowTop;

verus! {

/// Below this many NetFlow events there is too little traffic to judge.
pub const MINIMO_FLUJOS: i64 = 10;

/// Default period of the monitor, in seconds.
pub const INTERVALO_ENTROPIA_POR_DEFECTO: u64 = 60;

/// What one evaluation decides.
pub struct DecisionEntropia {
    /// Whether the traffic is now considered anomalous.
    pub en_anomalia: bool,
    /// Whether to raise an alert.
    pub alertar: bool,
}

/// The state after an evaluation.
pub open spec fn siguiente_anomalia(en_anomalia: bool, total_flujos: int, es_anomalo: bool) -> bool {
    if total_flujos < MINIMO_FLUJOS {
        en_anomalia
    } else {
        es_anomalo
    }
}

/// Whether an evaluation raises an alert.
pub open spec fn alerta_entropia(en_anomalia: bool, total_flujos: int, es_anomalo: bool) -> bool {
    total_flujos >= MINIMO_FLUJOS && es_anomalo && !en_anomalia
}

/// One evaluation of the monitor: `total_flujos` events seen so far, and
/// whether the entropy reached the threshold. With too little traffic
/// nothing changes; otherwise the state follows the entropy, and an alert
/// is raised when the traffic turns anomalous.
pub fn evaluar_entropia(en_anomalia: bool, total_flujos: i64, es_anomalo: bool) -> (r: DecisionEntropia)
    ensures
        r.en_anomalia == siguiente_anomalia(en_anomalia, total_flujos as int, es_anomalo),
        r.alertar == alerta_entropia(en_anomalia, total_flujos as int, es_anomalo),
{
    if total_flujos < MINIMO_FLUJOS {
        return DecisionEntropia { en_anomalia, alertar: false };
    }
    DecisionEntropia { en_anomalia: es_anomalo, alertar: es_anomalo && !en_anomalia }
}

/// One observation of the monitor: events seen, and whether the entropy
/// reached the threshold.
pub type Observacion = (int, bool);

/// The monitor's state after a sequence of observations.
pub open spec fn estado_tras(inicial: bool, obs: Seq<Observacion>) -> bool
    decreases obs.len(),
{
    if obs.len() == 0 {
        inicial
    } else {
        siguiente_anomalia(estado_tras(inicial, obs.drop_last()), obs.last().0, obs.last().1)
    }
}

/// Whether observation `i` raises an alert.
pub open spec fn alerta_en(inicial: bool, obs: Seq<Observacion>, i: int) -> bool {
    alerta_entropia(estado_tras(inicial, obs.take(i)), obs[i].0, obs[i].1)
}

proof fn lema_estado_tras_prefijo(inicial: bool, obs: Seq<Observacion>, i: int)
    requires
        0 <= i < obs.len(),
    ensures
        estado_tras(inicial, obs.take(i + 1)) == siguiente_anomalia(
            estado_tras(inicial, obs.take(i)),
            obs[i].0,
            obs[i].1,
        ),
{
    assert(obs.take(i + 1).drop_last() =~= obs.take(i));
}

/// While no observation in `(i, j)` clears the anomaly, the state after an
/// alert at `i` stays anomalous.
proof fn lema_sigue_anomalo(inicial: bool, obs: Seq<Observacion>, i: int, j: int)
    requires
        0 <= i < j <= obs.len(),
        alerta_en(inicial, obs, i),
        forall|k: int| i < k < j ==> !(obs[k].0 >= MINIMO_FLUJOS && !obs[k].1),
    ensures
        estado_tras(inicial, obs.take(j)),
    decreases j - i,
{
    if j == i + 1 {
        lema_estado_tras_prefijo(inicial, obs, i);
    } else {
        lema_sigue_anomalo(inicial, obs, i, j - 1);
        lema_estado_tras_prefijo(inicial, obs, j - 1);
    }
}

/// Between two alerts there is an evaluation with enough traffic whose
/// entropy was below the threshold: an anomaly that lasts is reported once.
pub proof fn ley_una_alerta_por_anomalia(inicial: bool, obs: Seq<Observacion>, i: int, j: int)
    requires
        0 <= i < j < obs.len(),
        alerta_en(inicial, obs, i),
        alerta_en(inicial, obs, j),
    ensures
        exists|k: int| i < k < j && #[trigger] obs[k].0 >= MINIMO_FLUJOS && !obs[k].1,
{
    if forall|k: int| i < k < j ==> !(#[trigger] obs[k].0 >= MINIMO_FLUJOS && !obs[k].1) {
        lema_sigue_anomalo(inicial, obs, i, j);
    }
}

/// `j` is the latest observation before `k` with enough traffic.
pub open spec fn ultima_evaluacion(obs: Seq<Observacion>, j: int, k: int) -> bool {
    &&& 0 <= j < k
    &&& obs[j].0 >= MINIMO_FLUJOS
    &&& forall|m: int| j < m < k ==> #[trigger] obs[m].0 < MINIMO_FLUJOS
}

proof fn lema_estado_es_ultima(inicial: bool, obs: Seq<Observacion>, k: int)
    requires
        0 <= k <= obs.len(),
    ensures
        (forall|j: int| 0 <= j < k ==> #[trigger] obs[j].0 < MINIMO_FLUJOS) ==> estado_tras(inicial, obs.take(k)) == inicial,
        forall|j: int| #[trigger] ultima_evaluacion(obs, j, k) ==> estado_tras(inicial, obs.take(k)) == obs[j].1,
    decreases k,
{
    if k == 0 {
        assert(obs.take(0) =~= Seq::<Observacion>::empty());
    } else {
        lema_estado_es_ultima(inicial, obs, k - 1);
        lema_estado_tras_prefijo(inicial, obs, k - 1);
        if obs[k - 1].0 >= MINIMO_FLUJOS {
            assert forall|j: int| #[trigger] ultima_evaluacion(obs, j, k) implies estado_tras(inicial, obs.take(k)) == obs[j].1 by {
                if j < k - 1 {
                    assert(obs[k - 1].0 < MINIMO_FLUJOS);
                }
            }
        } else {
            assert forall|j: int| #[trigger] ultima_evaluacion(obs, j, k) implies estado_tras(inicial, obs.take(k)) == obs[j].1 by {
                assert(j != k - 1);
                assert(ultima_evaluacion(obs, j, k - 1));
            }
        }
    }
}

/// An evaluation raises an alert exactly when it has enough traffic, its
/// entropy reached the threshold, and the latest earlier evaluation with
/// enough traffic did not (or, when there is none, the monitor did not
/// start in the anomalous state).
pub proof fn ley_alerta_al_cruzar_el_umbral(inicial: bool, obs: Seq<Observacion>, k: int)
    requires
        0 <= k < obs.len(),
    ensures
        alerta_en(inicial, obs, k) <==> obs[k].0 >= MINIMO_FLUJOS && obs[k].1 && (
        if exists|j: int| #[trigger] ultima_evaluacion(obs, j, k) {
            !obs[choose|j: int| #[trigger] ultima_evaluacion(obs, j, k)].1
        } else {
            !inicial
        }),
{
    lema_estado_es_ultima(inicial, obs, k);
    if !exists|j: int| #[trigger] ultima_evaluacion(obs, j, k) {
        assert forall|j: int| 0 <= j < k implies #[trigger] obs[j].0 < MINIMO_FLUJOS by {
            if obs[j].0 >= MINIMO_FLUJOS {
                // the latest such observation would be a witness
                lema_hay_ultima(obs, j, k);
            }
        }
    }
}

proof fn lema_hay_ultima(obs: Seq<Observacion>, j: int, k: int)
    requires
        0 <= j < k <= obs.len(),
        obs[j].0 >= MINIMO_FLUJOS,
    ensures
        exists|i: int| #[trigger] ultima_evaluacion(obs, i, k),
    decreases k - j,
{
    if forall|m: int| j < m < k ==> #[trigger] obs[m].0 < MINIMO_FLUJOS {
        assert(ultima_evaluacion(obs, j, k));
    } else {
        let m = choose|m: int| j < m < k && !(#[trigger] obs[m].0 < MINIMO_FLUJOS);
        lema_hay_ultima(obs, m, k);
    }
}

/// The most active exporter, for the alert's text: the first of the top
/// list, else `desconocido`.
pub fn origen_mas_activo(top: &Vec<HostNetflowTop>) -> (r: String)
    ensures
        r@ == (if top@.len() > 0 { top@[0].origen@ } else { "desconocido"@ }),
{
    if top.len() > 0 {
        top[0].origen.clone()
    } else {
        String::from_str("desconocido")
    }
}

} // verus!

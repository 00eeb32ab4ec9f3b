use juno::api::{argumentos_admin, consulta_eventos, origenes_cors, puerto_servidor, red_a_escanear, ConsultaEventos, ErrorArgumentos};
use juno::db::{limite_alertas, limite_eventos, HostNetflowTop};
use juno::ids::{evaluar_entropia, origen_mas_activo};
use juno::ping::{decidir_ping, extraer_latencia, resultado_ping};
use juno::snmp::{parsear_hosts_snmp, resumen_snmp, LecturaOid};

#[test]
fn alerta_solo_al_entrar_en_anomalia() {
    // Too little traffic: nothing changes.
    let d = evaluar_entropia(false, 9, true);
    assert!(!d.en_anomalia && !d.alertar);
    // Crossing the threshold: one alert.
    let d = evaluar_entropia(false, 10, true);
    assert!(d.en_anomalia && d.alertar);
    // Still anomalous: no new alert.
    let d = evaluar_entropia(true, 50, true);
    assert!(d.en_anomalia && !d.alertar);
    // Back to normal, then anomalous again: a new alert.
    let d = evaluar_entropia(true, 50, false);
    assert!(!d.en_anomalia && !d.alertar);
    let d = evaluar_entropia(false, 50, true);
    assert!(d.alertar);
    // Little traffic keeps the anomaly.
    let d = evaluar_entropia(true, 3, false);
    assert!(d.en_anomalia && !d.alertar);
}

#[test]
fn secuencia_de_evaluaciones() {
    let obs = [(20, true), (25, true), (5, false), (30, true), (30, false), (40, true)];
    let mut estado = false;
    let mut alertas = Vec::new();
    for (i, (total, anomalo)) in obs.iter().enumerate() {
        let d = evaluar_entropia(estado, *total, *anomalo);
        if d.alertar {
            alertas.push(i);
        }
        estado = d.en_anomalia;
    }
    assert_eq!(alertas, vec![0, 5]);
}

#[test]
fn origen_mas_activo_o_desconocido() {
    assert_eq!(origen_mas_activo(&vec![]), "desconocido");
    let top = vec![
        HostNetflowTop { origen: "10.0.0.1".to_string(), flujos: 9 },
        HostNetflowTop { origen: "10.0.0.2".to_string(), flujos: 3 },
    ];
    assert_eq!(origen_mas_activo(&top), "10.0.0.1");
}

const SALIDA_PING: &str = "PING 10.0.0.1 (10.0.0.1) 56(84) bytes of data.\n64 bytes from 10.0.0.1: icmp_seq=1 ttl=64 time=0.045 ms\n\n--- 10.0.0.1 ping statistics ---\n1 packets transmitted, 1 received, 0% packet loss, time 0ms\n";

#[test]
fn latencia_de_ping() {
    assert_eq!(extraer_latencia(SALIDA_PING), Some("0.045".to_string()));
    assert_eq!(extraer_latencia("time=12.3ms rest"), Some("12.3".to_string()));
    assert_eq!(extraer_latencia("time=5msms"), Some("5".to_string()));
    assert_eq!(extraer_latencia("no reply"), None);
    assert_eq!(extraer_latencia("time=   "), None);
    assert_eq!(extraer_latencia("a time=1time=2"), Some("1".to_string()));
}

#[test]
fn resultado_de_ping() {
    let r = resultado_ping(true, SALIDA_PING);
    assert!(r.en_linea);
    assert_eq!(r.latencia_ms.as_deref(), Some("0.045"));
    let r = resultado_ping(false, "");
    assert!(!r.en_linea);
    assert!(r.latencia_ms.is_none());
}

#[test]
fn ping_alerta_al_caer() {
    let d = decidir_ping("online", "Router", "10.0.0.1", false);
    assert_eq!(d.nuevo_estado, "offline");
    let (sev, msg) = d.alerta.unwrap();
    assert_eq!(sev, "critica");
    assert_eq!(msg, "Router dejó de responder (10.0.0.1)");
}

#[test]
fn ping_alerta_al_volver() {
    let d = decidir_ping("offline", "Router", "10.0.0.1", true);
    assert_eq!(d.nuevo_estado, "online");
    let (sev, msg) = d.alerta.unwrap();
    assert_eq!(sev, "info");
    assert_eq!(msg, "Router volvió a responder (10.0.0.1)");
}

#[test]
fn ping_sin_cambio_no_alerta() {
    let d = decidir_ping("online", "Router", "10.0.0.1", true);
    assert!(d.alerta.is_none());
    let d2 = decidir_ping(&d.nuevo_estado, "Router", "10.0.0.1", true);
    assert!(d2.alerta.is_none());
    // A device never pinged before ("desconocido") that answers raises an informative alert.
    assert_eq!(decidir_ping("desconocido", "PC", "10.0.0.2", true).alerta.unwrap().0, "info");
}

#[test]
fn hosts_snmp() {
    let hs = parsear_hosts_snmp(" 192.168.1.1:public , ,10.0.0.1, x:priv:extra,:c ");
    let v: Vec<(String, String)> = hs.into_iter().map(|h| (h.host, h.community)).collect();
    assert_eq!(
        v,
        vec![
            ("192.168.1.1".to_string(), "public".to_string()),
            ("10.0.0.1".to_string(), "public".to_string()),
            ("x".to_string(), "priv:extra".to_string()),
            ("".to_string(), "c".to_string()),
        ]
    );
    assert!(parsear_hosts_snmp("").is_empty());
}

#[test]
fn limites_de_consultas() {
    assert_eq!(limite_eventos(0), 1);
    assert_eq!(limite_eventos(-5), 1);
    assert_eq!(limite_eventos(50), 50);
    assert_eq!(limite_eventos(5000), 1000);
    assert_eq!(limite_alertas(100), 100);
    assert_eq!(limite_alertas(501), 500);
    assert_eq!(limite_alertas(i64::MIN), 1);
}

#[test]
fn consulta_de_eventos() {
    match consulta_eventos(Some("netflow".to_string()), Some("10.0.0.1".to_string()), None) {
        Some(ConsultaEventos::PorOrigen { origen, limite }) => {
            assert_eq!(origen, "10.0.0.1");
            assert_eq!(limite, 100);
        }
        _ => panic!("by origin"),
    }
    match consulta_eventos(Some("snmp".to_string()), None, Some(5)) {
        Some(ConsultaEventos::PorTipo { tipo, limite }) => {
            assert_eq!(tipo, "snmp");
            assert_eq!(limite, 5);
        }
        _ => panic!("by type"),
    }
    assert!(consulta_eventos(None, None, Some(3)).is_none());
}

#[test]
fn red_para_descubrir() {
    let d = Some("10.0.0.0/24".to_string());
    assert_eq!(red_a_escanear(Some(" 192.168.1.0/24".to_string()), d.clone()), Some(" 192.168.1.0/24".to_string()));
    assert_eq!(red_a_escanear(Some("   ".to_string()), d.clone()), d);
    assert_eq!(red_a_escanear(None, d.clone()), d);
    assert_eq!(red_a_escanear(None, None), None);
}

#[test]
fn origenes_de_cors() {
    assert_eq!(origenes_cors(None), vec!["http://localhost"]);
    assert_eq!(origenes_cors(Some("http://localhost, http://192.168.1.50,")), vec!["http://localhost", "http://192.168.1.50"]);
}

#[test]
fn puerto_del_servidor() {
    assert_eq!(puerto_servidor(None), 8080);
    assert_eq!(puerto_servidor(Some("9000")), 9000);
    assert_eq!(puerto_servidor(Some("70000")), 8080);
    assert_eq!(puerto_servidor(Some("x")), 8080);
}

fn args(xs: &[&str]) -> Vec<String> {
    xs.iter().map(|s| s.to_string()).collect()
}

#[test]
fn argumentos_de_crear_admin() {
    assert!(matches!(argumentos_admin(&args(&["crear_admin", "u"])), Err(ErrorArgumentos::Uso)));
    assert!(matches!(argumentos_admin(&args(&["crear_admin", "u", "corta"])), Err(ErrorArgumentos::ContrasenaCorta)));
    let a = argumentos_admin(&args(&["crear_admin", "admin", "MiPasswordSegura123!"])).ok().unwrap();
    assert_eq!((a.username.as_str(), a.password.as_str(), a.rol.as_str()), ("admin", "MiPasswordSegura123!", "admin"));
    let a = argumentos_admin(&args(&["crear_admin", "l", "ñññña", "lector"])).ok().unwrap();
    assert_eq!(a.rol, "lector");
}

#[test]
fn resumen_de_una_ronda_snmp() {
    let lecturas = vec![
        ("sysDescr".to_string(), LecturaOid::Respuesta("Linux".to_string())),
        ("ciscoCpu5min".to_string(), LecturaOid::SinRespuesta("Timeout".to_string())),
    ];
    let v = resumen_snmp("10.0.0.1", &lecturas).unwrap();
    assert_eq!(
        v,
        vec![
            ("sysDescr".to_string(), "Linux".to_string()),
            ("ciscoCpu5min".to_string(), "sin respuesta: Timeout".to_string()),
        ]
    );
}

#[test]
fn ronda_snmp_sin_respuestas() {
    let lecturas = vec![("sysDescr".to_string(), LecturaOid::SinRespuesta("Timeout".to_string()))];
    assert_eq!(
        resumen_snmp("10.0.0.1", &lecturas).unwrap_err(),
        "ningún OID respondió en 10.0.0.1 (revisa host/community/firewall)"
    );
    assert!(resumen_snmp("10.0.0.1", &vec![]).is_err());
}

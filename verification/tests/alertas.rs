use juno::alerts::{correo_para_alerta, preparar_envio};

#[test]
fn solo_lo_critico_se_envia() {
    assert!(correo_para_alerta("ping", "info", "volvió", None).is_none());
    assert!(correo_para_alerta("netflow_entropia", "advertencia", "x", None).is_none());
    assert!(correo_para_alerta("ping", "Critica", "x", None).is_none());
}

#[test]
fn correo_critico_con_origen() {
    let c = correo_para_alerta("ping", "critica", "router dejó de responder (10.0.0.1)", Some("10.0.0.1")).unwrap();
    assert_eq!(c.asunto, "[Juno] Alerta crítica: ping");
    assert_eq!(c.cuerpo, "router dejó de responder (10.0.0.1)\n\nOrigen: 10.0.0.1");
}

#[test]
fn correo_critico_sin_origen() {
    let c = correo_para_alerta("disco", "critica", "lleno", None).unwrap();
    assert_eq!(c.cuerpo, "lleno");
}

fn s(x: &str) -> Option<String> {
    Some(x.to_string())
}

#[test]
fn envio_sin_usuario() {
    assert_eq!(preparar_envio(None, s("p"), None).err(), s("GMAIL_USER no está definida"));
}

#[test]
fn envio_sin_contrasena() {
    assert_eq!(preparar_envio(s("a@b.com"), None, None).err(), s("GMAIL_PASS no está definida"));
}

#[test]
fn envio_con_remitente_invalido() {
    let e = preparar_envio(s("no es correo"), s("p"), None).err().unwrap();
    assert!(e.starts_with("GMAIL_USER no es un correo válido: "), "{}", e);
}

#[test]
fn envio_con_destino_invalido() {
    let e = preparar_envio(s("yo@gmail.com"), s("p"), s("@@")).err().unwrap();
    assert!(e.starts_with("ALERT_EMAIL_TO no es un correo válido: "), "{}", e);
}

#[test]
fn envio_valido() {
    let e = preparar_envio(s("yo@gmail.com"), s("secreto"), None).ok().unwrap();
    assert_eq!(e.usuario, "yo@gmail.com");
    assert_eq!(e.password, "secreto");
    assert_eq!(e.remitente.en_buzon().to_string(), "yo@gmail.com");
    assert_eq!(e.receptor.en_buzon().to_string(), "yo@gmail.com");
    let e = preparar_envio(s("yo@gmail.com"), s("secreto"), s("Ops <ops@x.org>")).ok().unwrap();
    assert_eq!(e.remitente.en_buzon().email.to_string(), "yo@gmail.com");
    assert_eq!(e.receptor.en_buzon().email.to_string(), "ops@x.org");
}

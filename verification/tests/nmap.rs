use juno::nmap::{
    clasificar_dispositivo, clasificar_por_rasgos, hosts_periodicos, parsear_xml_descubrimiento,
    parsear_xml_nmap, planificar_descubrimiento, validar_cidr, HostDescubierto, PuertoNmap,
};

const ESCANEO: &str = r#"<?xml version="1.0" encoding="UTF-8"?>
<!DOCTYPE nmaprun>
<nmaprun scanner="nmap" args="nmap -oX - -T4 --top-ports 100 192.168.1.20">
<host starttime="1" endtime="2"><status state="up" reason="arp-response"/>
<address addr="192.168.1.20" addrtype="ipv4"/>
<address addr="AA:BB:CC:DD:EE:FF" addrtype="mac" vendor="Epson"/>
<hostnames>
<hostname name="oficina-01" type="PTR"/>
<hostname name="otro" type="user"/>
</hostnames>
<ports>
<port protocol="tcp" portid="80"><state state="open" reason="syn-ack"/><service name="http" method="table" conf="3"/></port>
<port protocol="tcp" portid="9100"><state state="open" reason="syn-ack"/><service name="jetdirect" method="table" conf="3"/></port>
</ports>
<os><osmatch name="Linux 4.15" accuracy="90"/><osmatch name="Otro" accuracy="80"/></os>
</host>
<runstats><finished time="2"/></runstats>
</nmaprun>
"#;

#[test]
fn escaneo_extrae_los_datos_del_host() {
    let r = parsear_xml_nmap(ESCANEO, "192.168.1.20");
    assert_eq!(r.host, "192.168.1.20");
    assert_eq!(r.estado_host.as_deref(), Some("up"));
    assert_eq!(r.mac.as_deref(), Some("AA:BB:CC:DD:EE:FF"));
    assert_eq!(r.vendor.as_deref(), Some("Epson"));
    assert_eq!(r.hostname.as_deref(), Some("oficina-01"));
    assert_eq!(r.so_detectado.as_deref(), Some("Linux 4.15"));
    assert_eq!(r.puertos_abiertos.len(), 2);
    let p = &r.puertos_abiertos[1];
    assert_eq!(p.protocolo, "tcp");
    assert_eq!(p.puerto, "9100");
    assert_eq!(p.estado, "open");
    assert_eq!(p.servicio, "jetdirect");
    assert_eq!(r.tipo_inferido, "Impresora");
    assert_eq!(r.xml_crudo, ESCANEO);
}

#[test]
fn escaneo_de_texto_vacio() {
    let r = parsear_xml_nmap("", "10.0.0.5");
    assert_eq!(r.host, "10.0.0.5");
    assert!(r.estado_host.is_none());
    assert!(r.puertos_abiertos.is_empty());
    assert_eq!(r.tipo_inferido, "PC");
}

#[test]
fn escaneo_malformado_conserva_lo_leido() {
    let xml = r#"<nmaprun><host><status state="down"/><ports><port protocol="udp" portid="53"><state state="open"/><service name="domain"/></port></ports></hostx></nmaprun>"#;
    let r = parsear_xml_nmap(xml, "10.0.0.7");
    assert_eq!(r.estado_host.as_deref(), Some("down"));
    assert_eq!(r.puertos_abiertos.len(), 1);
    assert_eq!(r.tipo_inferido, "Router");
}

#[test]
fn servicio_sin_estado_no_se_lista() {
    let xml = r#"<nmaprun><port protocol="tcp" portid="22"><service name="ssh"/></port></nmaprun>"#;
    let r = parsear_xml_nmap(xml, "10.0.0.8");
    assert!(r.puertos_abiertos.is_empty());
}

const DESCUBRIMIENTO: &str = r#"<?xml version="1.0"?>
<nmaprun>
<host><status state="up"/><address addr="192.168.1.1" addrtype="ipv4"/><address addr="11:22:33:44:55:66" addrtype="mac" vendor="MikroTik"/><hostnames><hostname name="gw.local" type="PTR"/></hostnames></host>
<host><status state="up"/><address addr="192.168.1.30" addrtype="ipv4"/></host>
<host><status state="down"/><address addr="192.168.1.31" addrtype="ipv4"/></host>
<host><status state="up"/></host>
</nmaprun>
"#;

#[test]
fn descubrimiento_lista_los_hosts_con_ip() {
    let hosts = parsear_xml_descubrimiento(DESCUBRIMIENTO);
    assert_eq!(hosts.len(), 3);
    assert_eq!(hosts[0].ip, "192.168.1.1");
    assert_eq!(hosts[0].mac.as_deref(), Some("11:22:33:44:55:66"));
    assert_eq!(hosts[0].vendor.as_deref(), Some("MikroTik"));
    assert_eq!(hosts[0].hostname.as_deref(), Some("gw.local"));
    assert_eq!(hosts[0].estado.as_deref(), Some("up"));
    assert_eq!(hosts[1].ip, "192.168.1.30");
    assert!(hosts[1].hostname.is_none());
    assert_eq!(hosts[2].estado.as_deref(), Some("down"));
}

#[test]
fn plan_de_descubrimiento() {
    let hosts = parsear_xml_descubrimiento(DESCUBRIMIENTO);
    let plan = planificar_descubrimiento(&hosts);
    assert_eq!(plan.len(), 2);
    assert_eq!(plan[0].nombre, "gw.local");
    assert_eq!(plan[0].tipo, "Router");
    assert_eq!(plan[0].ip, "192.168.1.1");
    assert_eq!(plan[1].nombre, "Dispositivo 192.168.1.30");
    assert_eq!(plan[1].tipo, "PC");
}

#[test]
fn plan_sin_hosts_activos() {
    let hosts = vec![HostDescubierto {
        ip: "10.1.1.1".to_string(),
        hostname: None,
        mac: None,
        vendor: None,
        estado: Some("down".to_string()),
    }];
    assert!(planificar_descubrimiento(&hosts).is_empty());
}

#[test]
fn cidr_valido() {
    assert_eq!(validar_cidr("192.168.1.0/24"), Ok(()));
    assert_eq!(validar_cidr("10.0.0.0/16"), Ok(()));
    assert_eq!(validar_cidr("10.0.0.0/+20"), Ok(()));
    assert_eq!(validar_cidr("10.0.0.0/24/extra"), Ok(()));
}

#[test]
fn cidr_sin_prefijo() {
    assert_eq!(
        validar_cidr("192.168.1.0"),
        Err("Formato inválido, usa notación CIDR (ej. 192.168.1.0/24)".to_string())
    );
}

#[test]
fn cidr_prefijo_invalido() {
    let e = Err("Prefijo CIDR inválido".to_string());
    assert_eq!(validar_cidr("192.168.1.0/abc"), e);
    assert_eq!(validar_cidr("192.168.1.0/"), e);
    assert_eq!(validar_cidr("192.168.1.0/300"), e);
    assert_eq!(validar_cidr("192.168.1.0/-24"), e);
}

#[test]
fn cidr_demasiado_amplio() {
    assert_eq!(
        validar_cidr("10.0.0.0/8"),
        Err("Por seguridad, no se permiten rangos mayores a /16 (demasiados hosts)".to_string())
    );
}

fn puerto(n: &str, servicio: &str) -> PuertoNmap {
    PuertoNmap {
        protocolo: "tcp".to_string(),
        puerto: n.to_string(),
        estado: "open".to_string(),
        servicio: servicio.to_string(),
    }
}

#[test]
fn clasifica_impresora_por_puerto() {
    let ps = [puerto("631", "ipp"), puerto("22", "ssh"), puerto("80", "http")];
    assert_eq!(clasificar_dispositivo("192.168.1.1", None, None, None, &ps), "Impresora");
}

#[test]
fn clasifica_camara_por_fabricante_en_mayusculas() {
    assert_eq!(clasificar_dispositivo("10.0.0.9", Some("HIKVISION Digital"), None, None, &[]), "Cámara");
}

#[test]
fn clasifica_switch() {
    let ps = [puerto("161", "snmp"), puerto("23", "telnet")];
    assert_eq!(clasificar_dispositivo("10.0.0.9", None, None, None, &ps), "Switch");
    assert_eq!(clasificar_dispositivo("10.0.0.9", None, Some("core-SW-01"), None, &[]), "Switch");
}

#[test]
fn clasifica_router_por_puerta_de_enlace() {
    assert_eq!(clasificar_dispositivo("192.168.0.254", None, None, None, &[]), "Router");
    assert_eq!(clasificar_dispositivo("192.168.0.1", None, None, None, &[]), "Router");
}

#[test]
fn clasifica_servidor() {
    let ps = [puerto("22", "ssh"), puerto("443", "https")];
    assert_eq!(clasificar_dispositivo("10.0.0.9", None, None, None, &ps), "Servidor");
    assert_eq!(clasificar_dispositivo("10.0.0.9", None, None, Some("Debian 12"), &[]), "Servidor");
}

#[test]
fn clasifica_pc() {
    assert_eq!(clasificar_dispositivo("10.0.0.9", Some("Dell Inc."), None, None, &[]), "PC");
    assert_eq!(clasificar_dispositivo("10.0.0.9", None, None, None, &[]), "PC");
}

#[test]
fn clasifica_por_puerto_web_como_router() {
    assert_eq!(clasificar_dispositivo("10.0.0.9", None, None, None, &[puerto("443", "https")]), "Router");
}

#[test]
fn puerto_no_numerico_no_cuenta() {
    assert_eq!(clasificar_dispositivo("10.0.0.9", None, None, None, &[puerto("abc", "x"), puerto("70000", "y")]), "PC");
}

#[test]
fn clasifica_por_rasgos_ya_normalizados() {
    assert_eq!(clasificar_por_rasgos("10.0.0.9", "cisco systems", "", "", &vec![161], &vec![]), "Switch");
    assert_eq!(clasificar_por_rasgos("10.0.0.9", "cisco systems", "", "", &vec![22], &vec![]), "Router");
    assert_eq!(clasificar_por_rasgos("10.0.0.9", "", "", "", &vec![], &vec!["rtsp".to_string()]), "Cámara");
    // Already-lowercased input is taken as given: upper case does not match.
    assert_eq!(clasificar_por_rasgos("10.0.0.9", "EPSON", "", "", &vec![], &vec![]), "PC");
}

#[test]
fn hosts_para_escaneo_periodico() {
    assert_eq!(hosts_periodicos(Some(" 192.168.1.1, ,192.168.1.10 ,")), vec!["192.168.1.1", "192.168.1.10"]);
    assert!(hosts_periodicos(None).is_empty());
}

#[test]
fn solo_se_listan_los_puertos_abiertos() {
    let xml = r#"<nmaprun><host><ports>
<port protocol="tcp" portid="22"><state state="closed"/><service name="ssh"/></port>
<port protocol="tcp" portid="23"><state state="filtered"/><service name="telnet"/></port>
<port protocol="tcp" portid="8081"><state state="open"/></port>
<port protocol="udp" portid="161"><state state="open"/><service name="snmp"/></port>
</ports></host></nmaprun>"#;
    let r = parsear_xml_nmap(xml, "10.0.0.9");
    assert_eq!(r.puertos_abiertos.len(), 2);
    assert_eq!(r.puertos_abiertos[0].puerto, "8081");
    assert_eq!(r.puertos_abiertos[0].servicio, "");
    assert_eq!(r.puertos_abiertos[0].estado, "open");
    assert_eq!(r.puertos_abiertos[1].puerto, "161");
    assert_eq!(r.puertos_abiertos[1].protocolo, "udp");
    assert_eq!(r.puertos_abiertos[1].servicio, "snmp");
}

#[test]
fn puerto_sin_cerrar_no_se_lista() {
    let xml = r#"<nmaprun><port protocol="tcp" portid="80"><state state="open"/><service name="http"/>"#;
    let r = parsear_xml_nmap(xml, "10.0.0.9");
    assert!(r.puertos_abiertos.is_empty());
}

#[test]
fn el_orden_de_los_puertos_no_cambia_el_tipo() {
    let a = [puerto("22", "ssh"), puerto("3306", "mysql"), puerto("80", "http")];
    let b = [puerto("80", "http"), puerto("22", "ssh"), puerto("3306", "mysql"), puerto("22", "ssh")];
    assert_eq!(clasificar_dispositivo("10.0.0.9", None, None, None, &a), "Servidor");
    assert_eq!(clasificar_dispositivo("10.0.0.9", None, None, None, &b), "Servidor");
}

#[test]
fn las_mayusculas_no_cambian_el_tipo() {
    let a = [puerto("5000", "RTSP")];
    let b = [puerto("5000", "rtsp")];
    assert_eq!(clasificar_dispositivo("10.0.0.9", Some("EPSON"), None, None, &[]), "Impresora");
    assert_eq!(clasificar_dispositivo("10.0.0.9", Some("epson"), None, None, &[]), "Impresora");
    assert_eq!(clasificar_dispositivo("10.0.0.9", None, Some("ROUTER-1"), None, &a), "Cámara");
    assert_eq!(clasificar_dispositivo("10.0.0.9", None, Some("router-1"), None, &b), "Cámara");
}

#[test]
fn las_mayusculas_no_cambian_el_tipo_fuera_de_ascii() {
    assert_eq!(clasificar_dispositivo("10.0.0.9", None, Some("Señal-CAM"), None, &[]), "Cámara");
    assert_eq!(clasificar_dispositivo("10.0.0.9", None, Some("señal-cam"), None, &[]), "Cámara");
    assert_eq!(clasificar_dispositivo("10.0.0.9", Some("Ñandú BROTHER"), None, None, &[]), "Impresora");
    assert_eq!(clasificar_dispositivo("10.0.0.9", Some("Ñandú brother"), None, None, &[]), "Impresora");
}

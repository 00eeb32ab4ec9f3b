use juno::netflow::{parsear_netflow_v5, procesar_datagrama, DatagramaNetflow};
use netflow_parser::NetflowParser;

fn registro(n: u8) -> Vec<u8> {
    let mut r = vec![0u8; 48];
    r[0..4].copy_from_slice(&[10, 0, 0, n]);
    r[4..8].copy_from_slice(&[192, 168, 1, n]);
    r[8..12].copy_from_slice(&[10, 0, 0, 254]);
    r[16..20].copy_from_slice(&[0, 0, 1, 2]); // 258 packets
    r[20..24].copy_from_slice(&[0, 1, 0, 0]); // 65536 bytes
    r[32..34].copy_from_slice(&[0x1f, 0x90]); // port 8080
    r[34..36].copy_from_slice(&[0, 53]);
    r[37] = 0x12;
    r[38] = 6;
    r[39] = 4;
    r
}

fn datagrama(count: u16, registros: usize) -> Vec<u8> {
    let mut d = vec![0u8; 24];
    d[0] = 0;
    d[1] = 5;
    d[2..4].copy_from_slice(&count.to_be_bytes());
    for i in 0..registros {
        d.extend(registro(i as u8 + 1));
    }
    d
}

#[test]
fn v5_con_dos_registros() {
    let d = datagrama(2, 2);
    let (count, flujos) = parsear_netflow_v5(&d).expect("v5 datagram");
    assert_eq!(count, 2);
    assert_eq!(flujos.len(), 2);
    let f = &flujos[1];
    assert_eq!(f.ip_origen, [10, 0, 0, 2]);
    assert_eq!(f.ip_destino, [192, 168, 1, 2]);
    assert_eq!(f.ip_siguiente_salto, [10, 0, 0, 254]);
    assert_eq!(f.paquetes, 258);
    assert_eq!(f.bytes, 65536);
    assert_eq!(f.puerto_origen, 8080);
    assert_eq!(f.puerto_destino, 53);
    assert_eq!(f.tcp_flags, 0x12);
    assert_eq!(f.protocolo, 6);
    assert_eq!(f.tos, 4);
}

#[test]
fn v5_truncado_se_rechaza() {
    // Announces three records, carries two.
    assert!(parsear_netflow_v5(&datagrama(3, 2)).is_none());
}

#[test]
fn v5_cabecera_incompleta_se_rechaza() {
    assert!(parsear_netflow_v5(&[0, 5, 0, 0]).is_none());
    assert!(parsear_netflow_v5(&[]).is_none());
}

#[test]
fn otra_version_no_es_v5() {
    let mut d = datagrama(1, 1);
    d[1] = 9;
    assert!(parsear_netflow_v5(&d).is_none());
}

#[test]
fn v5_sin_registros() {
    let (count, flujos) = parsear_netflow_v5(&datagrama(0, 0)).expect("empty v5 datagram");
    assert_eq!(count, 0);
    assert!(flujos.is_empty());
}

#[test]
fn v5_ignora_bytes_sobrantes() {
    let d = datagrama(1, 1);
    let mut e = d.clone();
    e.extend([1, 2, 3, 4, 5]);
    let (c1, f1) = parsear_netflow_v5(&d).unwrap();
    let (c2, f2) = parsear_netflow_v5(&e).unwrap();
    assert_eq!(c1, c2);
    assert_eq!(f1.len(), f2.len());
    assert_eq!(f1[0].ip_origen, f2[0].ip_origen);
    assert_eq!(f1[0].bytes, f2[0].bytes);
}

#[test]
fn datagrama_v5_se_clasifica_como_v5() {
    let mut parser = NetflowParser::default();
    match procesar_datagrama(&mut parser, &datagrama(2, 2)) {
        DatagramaNetflow::V5 { cantidad, flujos } => {
            assert_eq!(cantidad, 2);
            assert_eq!(flujos[0].ip_origen, [10, 0, 0, 1]);
        }
        _ => panic!("expected a v5 datagram"),
    }
}

#[test]
fn datagrama_corto_no_es_v5() {
    let mut parser = NetflowParser::default();
    let r = procesar_datagrama(&mut parser, &[0, 5, 0]);
    assert!(!matches!(r, DatagramaNetflow::V5 { .. }));
}

use juno::auth::{
    claims_para, hash_password, resolver_login, token_de_cabecera, usuario_desde_claims,
    verificar_password, AuthenticatedUser, Claims, ErrorAutenticacion, ErrorAutorizacion,
    ResultadoLogin, DURACION_TOKEN_SEGUNDOS,
};
use juno::db::Usuario;

#[test]
fn hash_verifica_la_misma_contrasena() {
    let h = hash_password("MiPasswordSegura123!").expect("hash");
    assert!(h.starts_with("$argon2id$"));
    assert!(verificar_password("MiPasswordSegura123!", &h));
    assert!(!verificar_password("otra", &h));
}

#[test]
fn dos_hashes_usan_sales_distintas() {
    let a = hash_password("x").unwrap();
    let b = hash_password("x").unwrap();
    assert_ne!(a, b);
    assert!(verificar_password("x", &a) && verificar_password("x", &b));
}

#[test]
fn hash_malformado_no_verifica() {
    assert!(!verificar_password("x", "no es un hash"));
    assert!(!verificar_password("x", ""));
}

fn usuario(hash: &str) -> Usuario {
    Usuario { id: 7, username: "admin".to_string(), password_hash: hash.to_string(), rol: "admin".to_string() }
}

#[test]
fn login_correcto() {
    let u = usuario(&hash_password("clave-larga").unwrap());
    match resolver_login(Some(&u), "clave-larga") {
        ResultadoLogin::Autorizado { usuario_id, rol } => {
            assert_eq!(usuario_id, 7);
            assert_eq!(rol, "admin");
        }
        ResultadoLogin::Rechazado => panic!("should be authorized"),
    }
}

#[test]
fn login_rechazado_igual_si_falta_usuario_o_contrasena() {
    let u = usuario(&hash_password("clave-larga").unwrap());
    assert!(matches!(resolver_login(Some(&u), "mala"), ResultadoLogin::Rechazado));
    assert!(matches!(resolver_login(None, "clave-larga"), ResultadoLogin::Rechazado));
}

#[test]
fn claims_del_token() {
    let c = claims_para(42, "lector", 1_700_000_000);
    assert_eq!(c.sub, "42");
    assert_eq!(c.rol, "lector");
    assert_eq!(c.exp, 1_700_000_000 + DURACION_TOKEN_SEGUNDOS as usize);
    let n = claims_para(-17, "admin", 0);
    assert_eq!(n.sub, "-17");
    assert_eq!(claims_para(i32::MIN, "a", 0).sub, "-2147483648");
    assert_eq!(claims_para(0, "a", 0).sub, "0");
}

#[test]
fn sujeto_ida_y_vuelta() {
    for id in [0, 1, 9, 10, 42, -1, -10, 123456, i32::MAX, i32::MIN] {
        let c = claims_para(id, "admin", 0);
        let u = usuario_desde_claims(&c).ok().expect("valid subject");
        assert_eq!(u.usuario_id, id);
        assert_eq!(u.rol, "admin");
    }
}

#[test]
fn sujeto_invalido() {
    for sub in ["", "-", "+", "12a", "2147483648", "-2147483649", " 1"] {
        let c = Claims { sub: sub.to_string(), rol: "admin".to_string(), exp: 0 };
        assert!(matches!(usuario_desde_claims(&c), Err(ErrorAutenticacion::SujetoInvalido)), "{}", sub);
    }
    let c = Claims { sub: "+5".to_string(), rol: "r".to_string(), exp: 0 };
    assert_eq!(usuario_desde_claims(&c).ok().unwrap().usuario_id, 5);
}

#[test]
fn cabecera_bearer() {
    assert_eq!(token_de_cabecera(Some("Bearer abc.def")).ok(), Some("abc.def".to_string()));
    assert_eq!(token_de_cabecera(Some("Bearer ")).ok(), Some(String::new()));
    assert!(matches!(token_de_cabecera(Some("bearer abc")), Err(ErrorAutenticacion::FaltaCabecera)));
    assert!(matches!(token_de_cabecera(Some("Basic abc")), Err(ErrorAutenticacion::FaltaCabecera)));
    assert!(matches!(token_de_cabecera(None), Err(ErrorAutenticacion::FaltaCabecera)));
}

#[test]
fn solo_admin_modifica() {
    let a = AuthenticatedUser { usuario_id: 1, rol: "admin".to_string() };
    let l = AuthenticatedUser { usuario_id: 2, rol: "lector".to_string() };
    assert!(a.exigir_admin().is_ok());
    assert!(matches!(l.exigir_admin(), Err(ErrorAutorizacion::RequiereAdmin)));
}

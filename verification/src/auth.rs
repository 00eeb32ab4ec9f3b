//! Authentication: Argon2id password hashes, session token claims, the
//! `Authorization: Bearer <token>` header, and the admin role.

use vstd::prelude::*;
use vstd::utf8::encode_utf8;
use argon2::password_hash::rand_core::OsRng;
use argon2::password_hash::{PasswordHash, PasswordHasher, PasswordVerifier, SaltString};
use argon2::Argon2;
use crate::db::Usuario;
use crate::texto::{empieza_con, empieza_con_exec, entero_de, i32_de_exec, texto_entero, texto_entero_exec};
use crate::texto::{caracteres, cifras_de, caracter_digito, valor_decimal, valor_digito, todos_digitos, es_digito};

verus! {

/// Lifetime of a session token, in seconds (8 hours).
pub const DURACION_TOKEN_SEGUNDOS: i64 = 28800;

// ---------------------------------------------------------------------
// Passwords
// ---------------------------------------------------------------------

/// The PHC string that Argon2id with the crate's default parameters gives
/// for `password` with the Base64 salt `sal`.
pub uninterp spec fn hash_argon2(password: Seq<char>, sal: Seq<char>) -> Seq<char>;

/// The message of the error that hashing `password` with `sal` gives.
pub uninterp spec fn error_hash_argon2(password: Seq<char>, sal: Seq<char>) -> Seq<char>;

/// Whether `hash` is a PHC string that `password` verifies against.
pub uninterp spec fn verifica_argon2(password: Seq<char>, hash: Seq<char>) -> bool;

/// A character of the Base64 alphabet that PHC salts are written in.
pub open spec fn es_b64(c: char) -> bool {
    ('A' <= c && c <= 'Z') || ('a' <= c && c <= 'z') || ('0' <= c && c <= '9') || c == '+' || c
        == '/'
}

/// Sixteen bytes written in unpadded Base64: 22 characters of the
/// alphabet, the last of which holds two bits followed by four zero bits
/// (`A`, `Q`, `g` or `w`).
pub open spec fn sal_de_16_bytes(s: Seq<char>) -> bool {
    &&& s.len() == 22
    &&& forall|i: int| 0 <= i < 22 ==> es_b64(#[trigger] s[i])
    &&& (s[21] == 'A' || s[21] == 'Q' || s[21] == 'g' || s[21] == 'w')
}

/// The longest password, in bytes, that Argon2 accepts.
pub open spec fn max_password_bytes() -> nat {
    0xFFFF_FFFF
}

/// Calls `SaltString::generate` with the operating system's random number
/// generator, and gives the salt as its Base64 text: the crate fills 16
/// random bytes and writes them in unpadded Base64. Which bytes is left to
/// chance, so only the salt's form is stated.
#[verifier::external_body]
fn sal_aleatoria() -> (r: String)
    ensures
        sal_de_16_bytes(r@),
{
    SaltString::generate(&mut OsRng).as_str().to_string()
}

/// Calls `PasswordHasher::hash_password` of `Argon2::default()` (Argon2id)
/// on the bytes of `password`, with the salt read back from its Base64
/// text, and gives the PHC string or the error's message. Claimed: the
/// result is a function of the password and the salt; a salt of 16 bytes
/// in Base64 and a password of at most `u32::MAX` bytes are accepted, and a
/// longer password is refused (the crate refuses salts it cannot read or
/// shorter than 8 bytes, and passwords over `u32::MAX` bytes); the PHC string starts with the algorithm, `$argon2id$`;
/// and a hash it gives verifies the same password (the crate's
/// `PasswordVerifier` hashes the password again with the salt and
/// parameters stored in the string and compares).
#[verifier::external_body]
fn argon2_hash(password: &str, sal: &str) -> (r: Result<String, String>)
    ensures
        sal_de_16_bytes(sal@) && encode_utf8(password@).len() <= max_password_bytes() ==> r is Ok,
        encode_utf8(password@).len() > max_password_bytes() ==> r is Err,
        r matches Ok(h) ==> h@ == hash_argon2(password@, sal@) && verifica_argon2(password@, h@)
            && empieza_con(h@, "$argon2id$"@),
        r matches Err(e) ==> e@ == error_hash_argon2(password@, sal@),
{
    let s = SaltString::from_b64(sal).map_err(|e| e.to_string())?;
    Argon2::default().hash_password(password.as_bytes(), &s).map(|h| h.to_string()).map_err(
        |e| e.to_string(),
    )
}

/// Calls `PasswordHash::new` on `hash` and then `verify_password` of
/// `Argon2::default()`. A string that is not a PHC string verifies nothing;
/// in particular `PasswordHash::new` refuses any text that does not start
/// with `$`.
#[verifier::external_body]
fn argon2_verifica(password: &str, hash: &str) -> (r: bool)
    ensures
        r == verifica_argon2(password@, hash@),
        !(hash@.len() > 0 && hash@[0] == '$') ==> !r,
{
    match PasswordHash::new(hash) {
        Ok(h) => Argon2::default().verify_password(password.as_bytes(), &h).is_ok(),
        Err(_) => false,
    }
}

/// Computes the Argon2id hash of a password, with a fresh random salt. The
/// PHC string that comes back (salt and parameters included) is what gets
/// stored; the password itself never is. Only a password longer than
/// `u32::MAX` bytes is refused.
pub fn hash_password(password: &str) -> (r: Result<String, String>)
    ensures
        encode_utf8(password@).len() <= max_password_bytes() <==> r is Ok,
        r matches Ok(h) ==> verifica_argon2(password@, h@) && empieza_con(h@, "$argon2id$"@)
            && exists|sal: Seq<char>| sal_de_16_bytes(sal) && h@ == #[trigger] hash_argon2(password@, sal),
        r matches Err(e) ==> exists|sal: Seq<char>| sal_de_16_bytes(sal) && e@ == #[trigger] error_hash_argon2(password@, sal),
{
    let sal = sal_aleatoria();
    argon2_hash(password, sal.as_str())
}

/// Checks a password against its stored hash.
pub fn verificar_password(password: &str, hash: &str) -> (r: bool)
    ensures
        r == verifica_argon2(password@, hash@),
        !(hash@.len() > 0 && hash@[0] == '$') ==> !r,
{
    argon2_verifica(password, hash)
}

/// What a login attempt comes to.
pub enum ResultadoLogin {
    /// The user exists and the password matches.
    Autorizado { usuario_id: i32, rol: String },
    /// Unknown user or wrong password: the two are not told apart.
    Rechazado,
}

/// Decides a login from the user found by name (if any) and the password
/// given. An unknown user and a wrong password get the same answer, so
/// that the answer does not tell which user names exist.
pub fn resolver_login(usuario: Option<&Usuario>, password: &str) -> (r: ResultadoLogin)
    ensures
        match usuario {
            None => r is Rechazado,
            Some(u) => if verifica_argon2(password@, u.password_hash@) {
                r matches ResultadoLogin::Autorizado { usuario_id, rol } && usuario_id == u.id
                    && rol@ == u.rol@
            } else {
                r is Rechazado
            },
        },
{
    match usuario {
        None => ResultadoLogin::Rechazado,
        Some(u) => {
            if verificar_password(password, u.password_hash.as_str()) {
                ResultadoLogin::Autorizado { usuario_id: u.id, rol: u.rol.clone() }
            } else {
                ResultadoLogin::Rechazado
            }
        },
    }
}

// ---------------------------------------------------------------------
// Session tokens
// ---------------------------------------------------------------------

/// The claims of a session token: the user id as decimal text, the role,
/// and the expiry as a UNIX timestamp.
pub struct Claims {
    pub sub: String,
    pub rol: String,
    pub exp: usize,
}

/// The claims of a token issued at `ahora` (a UNIX timestamp) for a user:
/// it expires `DURACION_TOKEN_SEGUNDOS` later.
pub fn claims_para(usuario_id: i32, rol: &str, ahora: i64) -> (r: Claims)
    requires
        ahora <= i64::MAX - DURACION_TOKEN_SEGUNDOS,
    ensures
        r.sub@ == texto_entero(usuario_id as int),
        r.rol@ == rol@,
        r.exp == (ahora + DURACION_TOKEN_SEGUNDOS) as usize,
{
    let exp = (ahora + DURACION_TOKEN_SEGUNDOS) as usize;
    Claims { sub: texto_entero_exec(usuario_id), rol: String::from_str(rol), exp }
}

/// Why a request is not authenticated.
pub enum ErrorAutenticacion {
    /// No `Authorization: Bearer <token>` header.
    FaltaCabecera,
    /// The token's signature or expiry does not check.
    TokenInvalido,
    /// The token's subject is not a user id.
    SujetoInvalido,
}

/// The token of an `Authorization` header value: what follows `Bearer `.
pub open spec fn token_de(cabecera: Option<Seq<char>>) -> Option<Seq<char>> {
    match cabecera {
        Some(h) => if empieza_con(h, "Bearer "@) {
            Some(h.skip(7))
        } else {
            None
        },
        None => None,
    }
}

/// Takes the token out of the `Authorization` header value, if the request
/// has one (as text) and it starts with `Bearer `.
pub fn token_de_cabecera(cabecera: Option<&str>) -> (r: Result<String, ErrorAutenticacion>)
    ensures
        match r {
            Ok(t) => token_de(cabecera.deep_view()) == Some(t@),
            Err(e) => token_de(cabecera.deep_view()) is None && e is FaltaCabecera,
        },
{
    match cabecera {
        None => Err(ErrorAutenticacion::FaltaCabecera),
        Some(h) => {
            let v = caracteres(h);
            let prefijo = "Bearer ";
            proof {
                reveal_strlit("Bearer ");
            }
            if empieza_con_exec(&v, prefijo) {
                Ok(String::from_str(h.substring_char(7, v.len())))
            } else {
                Err(ErrorAutenticacion::FaltaCabecera)
            }
        },
    }
}

/// The authenticated user of a request.
pub struct AuthenticatedUser {
    pub usuario_id: i32,
    pub rol: String,
}

/// The user a token's claims name: its subject must read as an `i32`.
pub fn usuario_desde_claims(claims: &Claims) -> (r: Result<AuthenticatedUser, ErrorAutenticacion>)
    ensures
        match entero_de(claims.sub@, i32::MIN as int, i32::MAX as int) {
            Some(id) => r matches Ok(u) && u.usuario_id == id && u.rol@ == claims.rol@,
            None => r matches Err(e) && e is SujetoInvalido,
        },
{
    match i32_de_exec(claims.sub.as_str()) {
        Some(id) => Ok(AuthenticatedUser { usuario_id: id, rol: claims.rol.clone() }),
        None => Err(ErrorAutenticacion::SujetoInvalido),
    }
}

/// Why a request is not authorized.
pub enum ErrorAutorizacion {
    /// The operation needs the `admin` role.
    RequiereAdmin,
}

impl AuthenticatedUser {
    /// Only the `admin` role may create, edit or delete devices or start
    /// scans; `lector` only reads.
    pub fn exigir_admin(&self) -> (r: Result<(), ErrorAutorizacion>)
        ensures
            r is Ok <==> self.rol@ == "admin"@,
    {
        let admin = "admin";
        if crate::texto::iguales(self.rol.as_str(), admin) {
            Ok(())
        } else {
            Err(ErrorAutorizacion::RequiereAdmin)
        }
    }
}

// ---------------------------------------------------------------------
// Laws
// ---------------------------------------------------------------------

proof fn lema_digito(d: nat)
    requires
        d < 10,
    ensures
        es_digito(caracter_digito(d)),
        valor_digito(caracter_digito(d)) == d,
{
    assert(caracter_digito(d) as int == d + 48);
}

proof fn lema_cifras(n: nat)
    ensures
        cifras_de(n).len() > 0,
        todos_digitos(cifras_de(n)),
        valor_decimal(cifras_de(n)) == n,
    decreases n,
{
    if n < 10 {
        lema_digito(n);
        let c = cifras_de(n);
        assert(c.drop_last() =~= Seq::<char>::empty());
        assert(c.last() == caracter_digito(n));
        assert(valor_decimal(c) == valor_decimal(c.drop_last()) * 10 + valor_digito(c.last()));
        assert(valor_decimal(Seq::<char>::empty()) == 0);
    } else {
        lema_cifras(n / 10);
        lema_digito(n % 10);
        let c = cifras_de(n);
        assert(c.drop_last() =~= cifras_de(n / 10));
        assert forall|i: int| 0 <= i < c.len() implies es_digito(#[trigger] c[i]) by {
            if i < c.len() - 1 {
                assert(c[i] == cifras_de(n / 10)[i]);
            }
        }
        assert(c.last() == caracter_digito(n % 10));
        assert(valor_decimal(c) == valor_decimal(c.drop_last()) * 10 + valor_digito(c.last()));
        assert((n / 10) * 10 + n % 10 == n) by (nonlinear_arith);
    }
}

/// The subject written into a token reads back as the same user id.
pub proof fn ley_sujeto_ida_vuelta(usuario_id: i32)
    ensures
        entero_de(texto_entero(usuario_id as int), i32::MIN as int, i32::MAX as int)
            == Some(usuario_id as int),
{
    let n = usuario_id as int;
    if n < 0 {
        let m = (-n) as nat;
        lema_cifras(m);
        let t = seq!['-'] + cifras_de(m);
        assert(t.drop_first() =~= cifras_de(m));
    } else {
        lema_cifras(n as nat);
        let c = cifras_de(n as nat);
        assert(es_digito(c[0]));
    }
}

/// A token sent as `Authorization: Bearer <t>` is read back as `t`, and the
/// subject that `claims_para` writes for a user reads back as that user: a
/// token issued for a user authenticates that user.
pub proof fn ley_token_ida_vuelta(t: Seq<char>, usuario_id: i32)
    ensures
        token_de(Some("Bearer "@ + t)) == Some(t),
        entero_de(texto_entero(usuario_id as int), i32::MIN as int, i32::MAX as int)
            == Some(usuario_id as int),
{
    reveal_strlit("Bearer ");
    let h = "Bearer "@ + t;
    assert(h.subrange(0, 7) =~= "Bearer "@);
    assert(h.skip(7) =~= t);
    ley_sujeto_ida_vuelta(usuario_id);
}

} // verus!

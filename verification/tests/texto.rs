use juno::texto::{
    ajuste_u64, contiene_exec, caracteres, i32_de_exec, lista_separada_exec, natural_de_exec,
    partes_exec, partir_en_dos_exec, primera_palabra_exec, recortar_texto, segundo_trozo_exec,
    sin_sufijos_exec, texto_entero_exec,
};

#[test]
fn recorte_como_trim() {
    for s in ["", "   ", " a ", "\u{3000}\tx y\n\u{85}", "sin", "\u{a0}z"] {
        assert_eq!(recortar_texto(s), s.trim(), "{:?}", s);
    }
}

#[test]
fn partes_como_split() {
    for s in ["", ",", "a,b", ",a,,b,", "sin comas"] {
        let esperado: Vec<String> = s.split(',').map(|x| x.to_string()).collect();
        assert_eq!(partes_exec(s, ','), esperado, "{:?}", s);
    }
}

#[test]
fn lista_como_split_trim_filter() {
    for s in ["", " , ", "a, b ,,c", "\tx\u{2003},y"] {
        let esperado: Vec<String> = s.split(',').map(|x| x.trim().to_string()).filter(|x| !x.is_empty()).collect();
        assert_eq!(lista_separada_exec(s), esperado, "{:?}", s);
    }
}

#[test]
fn segundo_trozo_como_split_nth() {
    for s in ["a/b", "a/b/c", "a", "/", "a//b", ""] {
        assert_eq!(segundo_trozo_exec(s, "/"), s.split('/').nth(1).map(|x| x.to_string()), "{:?}", s);
    }
}

#[test]
fn partir_en_dos_como_splitn() {
    for s in ["h:c", "h", "h:c:d", ":", ""] {
        let mut it = s.splitn(2, ':');
        let a = it.next().unwrap().to_string();
        let b = it.next().map(|x| x.to_string());
        assert_eq!(partir_en_dos_exec(s, ":"), (a, b), "{:?}", s);
    }
}

#[test]
fn primera_palabra_como_split_whitespace() {
    for s in ["", "  ", " ab cd", "x", "\u{2028}y\u{2029}"] {
        assert_eq!(primera_palabra_exec(s), s.split_whitespace().next().map(|x| x.to_string()), "{:?}", s);
    }
}

#[test]
fn sufijos_como_trim_end_matches() {
    for s in ["12ms", "12msms", "ms", "12", "m"] {
        assert_eq!(sin_sufijos_exec(s, "ms"), s.trim_end_matches("ms"), "{:?}", s);
    }
}

#[test]
fn busqueda_de_subcadenas() {
    let h = caracteres("tp-link archer");
    assert!(contiene_exec(&h, "tp-link"));
    assert!(contiene_exec(&h, "cher"));
    assert!(contiene_exec(&h, ""));
    assert!(!contiene_exec(&h, "netgear"));
}

#[test]
fn numeros_como_parse() {
    for s in ["0", "+7", "255", "256", "-1", "", "+", "1a", "00012", "99999999999999999999999"] {
        assert_eq!(natural_de_exec(s, 255), s.parse::<u8>().ok().map(|x| x as u64), "{:?}", s);
        assert_eq!(natural_de_exec(s, u64::MAX), s.parse::<u64>().ok(), "{:?}", s);
    }
    for s in ["0", "-0", "-2147483648", "2147483647", "2147483648", "-", "+-1", "-+1", "12"] {
        assert_eq!(i32_de_exec(s), s.parse::<i32>().ok(), "{:?}", s);
    }
}

#[test]
fn enteros_como_to_string() {
    for n in [0, 7, -7, 10, 1234567, i32::MAX, i32::MIN] {
        assert_eq!(texto_entero_exec(n), n.to_string());
    }
}

#[test]
fn ajustes_con_valor_por_defecto() {
    assert_eq!(ajuste_u64(None, 300), 300);
    assert_eq!(ajuste_u64(Some("60"), 300), 60);
    assert_eq!(ajuste_u64(Some(" 60"), 300), 300);
    assert_eq!(ajuste_u64(Some("-1"), 30), 30);
}

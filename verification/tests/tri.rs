use resume_youtube::tri::{avant_lex, trier_sans_doublon};

fn s(v: &[&str]) -> Vec<String> {
    v.iter().map(|x| x.to_string()).collect()
}

#[test]
fn tri_sans_doublon_dans_l_ordre_des_points_de_code() {
    assert_eq!(trier_sans_doublon(s(&["b", "a", "é", "B", "a", "ab"])), s(&["B", "a", "ab", "b", "é"]));
    assert!(trier_sans_doublon(Vec::new()).is_empty());
}

#[test]
fn tri_unique_quel_que_soit_l_ordre_de_depart() {
    let a = trier_sans_doublon(s(&["z", "m:free", "a", "m:free"]));
    let b = trier_sans_doublon(s(&["a", "z", "m:free"]));
    assert_eq!(a, b);
}

#[test]
fn ordre_lexicographique() {
    let c = |x: &str| x.chars().collect::<Vec<char>>();
    assert!(avant_lex(&c("a"), &c("ab")));
    assert!(!avant_lex(&c("ab"), &c("ab")));
    assert!(avant_lex(&c(""), &c("a")));
    assert!(!avant_lex(&c("b"), &c("a")));
}

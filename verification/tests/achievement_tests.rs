use doctor_git::achievement::{clean_answer, judge_answer, title_is_trivial, Verdict};

fn achievement(v: Verdict) -> String {
    match v {
        Verdict::Achievement(t) => t,
        Verdict::Trivial(t) => panic!("expected an achievement, got trivial {:?}", t),
    }
}

fn trivial(v: Verdict) -> String {
    match v {
        Verdict::Trivial(t) => t,
        Verdict::Achievement(t) => panic!("expected trivial, got achievement {:?}", t),
    }
}

#[test]
fn label_and_marks_are_removed() {
    assert_eq!(clean_answer("  Conquista: **Login com Google**  "), "Login com Google");
    assert_eq!(clean_answer("\"Sistema de Login\"\nOutra linha"), "Sistema de Login");
    assert_eq!(clean_answer("A Conquista: B Conquista: C"), "B");
    assert_eq!(clean_answer("Conquista:"), "");
    assert_eq!(clean_answer("*\"  Exportar PDF \r\n segunda"), "Exportar PDF");
}

#[test]
fn false_in_any_case_is_trivial() {
    assert_eq!(trivial(judge_answer("FALSE")), "FALSE");
    assert_eq!(trivial(judge_answer("\"false\"")), "false");
    assert_eq!(trivial(judge_answer("Falsear dados")), "Falsear dados");
}

#[test]
fn short_titles_are_trivial() {
    assert_eq!(trivial(judge_answer("ok")), "ok");
    assert_eq!(trivial(judge_answer("é")), "é");
    assert_eq!(trivial(judge_answer("  ")), "");
    assert_eq!(achievement(judge_answer("éa")), "éa");
}

#[test]
fn feature_titles_are_achievements() {
    assert_eq!(achievement(judge_answer("Conquista: Exportação de relatórios")), "Exportação de relatórios");
    let v = judge_answer("Novo painel");
    assert_eq!(v.title(), "Novo painel");
}

#[test]
fn triviality_reads_the_upper_case_form() {
    assert!(title_is_trivial("whatever", "FALSE"));
    assert!(!title_is_trivial("false", "false"));
    assert!(title_is_trivial("ab", "AB"));
    assert!(!title_is_trivial("abc", "ABC"));
}

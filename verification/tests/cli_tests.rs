use doctor_git::cli::{
    achievement_title, launch_mode, post_commit_hook, same_text, window_position, LaunchMode,
};
use doctor_git::conquest::{conquest_record, CONQUEST_DATE_FORMAT, CREATE_TABLE_SQL, INSERT_SQL};

fn args(list: &[&str]) -> Vec<String> {
    list.iter().map(|s| s.to_string()).collect()
}

#[test]
fn first_argument_selects_the_mode() {
    assert!(matches!(launch_mode(&args(&["doctor-git", "--brain"])), LaunchMode::Brain));
    assert!(matches!(launch_mode(&args(&["doctor-git", "init"])), LaunchMode::Init));
    assert!(matches!(launch_mode(&args(&["doctor-git"])), LaunchMode::Window));
    assert!(matches!(launch_mode(&args(&["doctor-git", "Nova API"])), LaunchMode::Window));
    assert!(matches!(launch_mode(&args(&["doctor-git", "--brainy"])), LaunchMode::Window));
}

#[test]
fn title_comes_from_the_first_argument() {
    assert_eq!(achievement_title(&args(&["doctor-git", "Nova API", "x"])), "Nova API");
    assert_eq!(achievement_title(&args(&["doctor-git"])), "TEST MODE");
    assert_eq!(achievement_title(&args(&[])), "TEST MODE");
}

#[test]
fn texts_compare_by_characters() {
    assert!(same_text("init", "init"));
    assert!(!same_text("init", "Init"));
    assert!(!same_text("init", "ini"));
}

#[test]
fn hook_calls_the_program_in_the_background() {
    let expected = "#!/bin/sh\n# ----------------------------------------------------\n# DOCTOR GIT - Auto Gerador de Conquistas Gamificadas\n# ----------------------------------------------------\n# Gerado via 'doctor-git init'. Caminho travado para segurança.\n\n\"C:/Tools/doctor git/doctor-git.exe\" --brain >> doctor_git_log.txt 2>&1 &\n";
    assert_eq!(post_commit_hook(Some("C:\\Tools\\doctor git\\doctor-git.exe")), expected);
    assert!(post_commit_hook(None).ends_with("\n\"doctor-git\" --brain >> doctor_git_log.txt 2>&1 &\n"));
    assert!(post_commit_hook(Some("/usr/bin/dg")).contains("\"/usr/bin/dg\" --brain"));
}

#[test]
fn window_goes_to_the_bottom_right_corner() {
    assert_eq!(window_position(1920, 1080, 500, 350, 20, 40), (1400, 670));
    assert_eq!(window_position(400, 300, 500, 350, 20, 40), (0, 0));
    assert_eq!(window_position(520, 410, 500, 350, 20, 40), (0, 0));
    assert_eq!(window_position(521, 411, 500, 350, 20, 40), (1, 1));
}

#[test]
fn records_write_the_date_day_first() {
    let t = chrono::NaiveDate::from_ymd_opt(2024, 3, 5).unwrap().and_hms_opt(9, 7, 3).unwrap();
    let r = conquest_record("Busca global", &t, 1709629623);
    assert_eq!(r.name, "Busca global");
    assert_eq!(r.date, "05/03/2024 09:07:03");
    assert_eq!(r.timestamp, 1709629623);
    assert_eq!(CONQUEST_DATE_FORMAT, "%d/%m/%Y %H:%M:%S");
    assert!(CREATE_TABLE_SQL.starts_with("CREATE TABLE IF NOT EXISTS conquest ("));
    assert_eq!(INSERT_SQL, "INSERT INTO conquest (name, date, timestamp) VALUES (?1, ?2, ?3)");
}

use mole::config::Config;
use mole::gui::{
    arg_value, check_host, check_result, details_facts, headline, is_dark, notice_for,
    repaint_after_ms, startup_lang, startup_theme, status_tip, warnings, Badge, ThemeChoice,
    ButtonKind, Health, Job, Lang, Outcome, Status, Tone,
};
use mole::probe::{Block, Reachable};

fn status(state: Option<u32>) -> Status {
    Status::gather(state, None, None, None, Vec::new())
}

#[test]
fn languages_have_their_texts() {
    let en = Lang::En.strings();
    let tr = Lang::Tr.strings();
    assert_eq!(en.protected, "You're protected");
    assert_eq!(tr.protected, "Korunuyorsun");
    assert_eq!(en.tray_quit, "Quit");
    assert_eq!(tr.tray_quit, "Çık");
    assert_eq!(Lang::Tr.name(), "Türkçe");
    assert_eq!(Lang::En.antivirus_title("Avast"), "Avast may get in the way");
    assert_eq!(Lang::Tr.rival_title("zapret"), "zapret da çalışıyor");
}

#[test]
fn the_locale_picks_the_language() {
    assert_eq!(Lang::for_locale("tr-TR"), Lang::Tr);
    assert_eq!(Lang::for_locale("TR"), Lang::Tr);
    assert_eq!(Lang::for_locale("en-US"), Lang::En);
    assert_eq!(Lang::for_locale("t"), Lang::En);
}

#[test]
fn service_states_read_as_health() {
    assert_eq!(status(Some(4)).health(), Health::Protected);
    assert_eq!(status(Some(1)).health(), Health::Stopped);
    assert_eq!(status(Some(2)).health(), Health::Starting);
    assert_eq!(status(None).health(), Health::Off);
    assert!(status(Some(1)).is_installed());
    assert!(!status(None).is_installed());
    let s = Status::gather(None, Some(Config::new("split:sni", "Google")), None, None, vec!["a".into(), "b".into()]);
    assert_eq!(s.last_event, Some("b".to_string()));
}

#[test]
fn headlines_follow_health() {
    let s = Lang::En.strings();
    let h = headline(Lang::En, Health::Protected);
    assert!(h.badge == Badge::Check && h.title == s.protected);
    assert_eq!(h.action, Some((ButtonKind::Standard, s.remeasure)));
    assert_eq!(h.hover, Some(s.remeasure_hover));
    let h = headline(Lang::En, Health::Starting);
    assert!(h.action.is_none() && h.badge == Badge::Dash);
    let h = headline(Lang::En, Health::Off);
    assert_eq!(h.action, Some((ButtonKind::Primary, s.protect)));
    assert_eq!(status_tip(Lang::En, Health::Stopped), s.stopped);
}

#[test]
fn warnings_list_antivirus_then_rival() {
    let st = Status::gather(Some(4), None, Some("ESET".into()), Some("GoodbyeDPI".into()), Vec::new());
    let w = warnings(Lang::En, &st);
    assert_eq!(w.len(), 2);
    assert_eq!(w[0].0, "ESET may get in the way");
    assert_eq!(w[1].0, "GoodbyeDPI is also running");
    assert_eq!(w[1].1, Lang::En.strings().rival_body);
    assert!(warnings(Lang::Tr, &status(None)).is_empty());
}

#[test]
fn site_checks_read_as_words() {
    let s = Lang::En.strings();
    assert_eq!(check_result(Lang::En, &Reachable::Yes), (s.open, s.open_detail, Tone::Success));
    assert_eq!(
        check_result(Lang::En, &Reachable::Blocked(Block::Dropped)),
        (s.blocked, s.dropped_detail, Tone::Critical)
    );
    assert_eq!(
        check_result(Lang::En, &Reachable::DnsFailed("x".into())),
        (s.unresolved, s.unresolved_detail, Tone::Caution)
    );
    assert_eq!(check_host("  www.example.com "), Some("www.example.com".to_string()));
    assert_eq!(check_host(" \t"), None);
}

#[test]
fn finished_jobs_leave_notices() {
    let s = Lang::En.strings();
    assert!(notice_for(Lang::En, Job::Install, Outcome::Exited(0)).is_none());
    let n = notice_for(Lang::En, Job::Remove, Outcome::Exited(3)).unwrap();
    assert!(n.failure && n.text == s.remove_failed);
    let n = notice_for(Lang::En, Job::Install, Outcome::Declined).unwrap();
    assert!(!n.failure && n.text == s.uac_declined);
    let n = notice_for(Lang::En, Job::Install, Outcome::LaunchFailed).unwrap();
    assert!(n.failure && n.text == s.launch_failed);
    assert_eq!(Job::Install.args(), "install --auto");
    assert_eq!(Job::Remove.busy_text(Lang::En), s.removing);
}

#[test]
fn arg_value_takes_the_word_after_the_first_flag() {
    let a: Vec<String> = ["--lang", "tr", "--lang", "en", "--theme"].iter().map(|s| s.to_string()).collect();
    assert_eq!(arg_value(&a, "--lang"), Some("tr".to_string()));
    assert_eq!(arg_value(&a, "--theme"), None);
    assert_eq!(arg_value(&a, "--shot"), None);
}

#[test]
fn details_list_service_method_dns_quic_and_site() {
    let s = Lang::En.strings();
    let cfg = Config::new("fake:badsum", "Google").quic(true).canary("discord.com");
    let st = Status::gather(Some(4), Some(cfg), None, None, Vec::new());
    let f = details_facts(Lang::En, &st);
    let got: Vec<(&str, String, bool)> = f.iter().map(|x| (x.label, x.value.clone(), x.mono)).collect();
    assert_eq!(
        got,
        vec![
            (s.service, "Running".to_string(), false),
            (s.method, "fake:badsum".to_string(), true),
            (s.dns, "Google (DoH)".to_string(), false),
            (s.quic, "Blocked".to_string(), false),
            (s.watching, "discord.com".to_string(), false),
        ]
    );
    let none = details_facts(Lang::En, &status(None));
    assert_eq!(none.len(), 2);
    assert_eq!(none[0].value, "Not installed");
    assert_eq!(none[1].value, "—");
}

#[test]
fn startup_flags_override_stored_choices() {
    assert_eq!(startup_lang(Some("tr"), Some(Lang::En), Lang::En), Lang::Tr);
    assert_eq!(startup_lang(Some("de"), Some(Lang::En), Lang::Tr), Lang::En);
    assert_eq!(startup_lang(None, None, Lang::Tr), Lang::Tr);
    assert_eq!(startup_theme(Some("dark"), Some(ThemeChoice::Light)), ThemeChoice::Dark);
    assert_eq!(startup_theme(Some("blue"), None), ThemeChoice::System);
    assert_eq!(startup_theme(None, Some(ThemeChoice::Light)), ThemeChoice::Light);
    assert!(is_dark(ThemeChoice::Dark, Some(false)));
    assert!(!is_dark(ThemeChoice::Light, Some(true)));
    assert!(is_dark(ThemeChoice::System, Some(true)));
    assert!(!is_dark(ThemeChoice::System, None));
    assert_eq!(repaint_after_ms(true, false), 400);
    assert_eq!(repaint_after_ms(false, false), 2000);
}

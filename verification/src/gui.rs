//! What the window decides: which language and texts it shows, what the
//! service state means, the headline and the warnings for it, what a site
//! check or a privileged job came to, and how its own arguments read. Drawing,
//! the tray, elevation and polling the system are outside this crate.

use vstd::prelude::*;
use vstd::string::{StringExecFns, StrSliceExecFns};

use crate::config::Config;
use crate::probe::{Block, Reachable};
use crate::text::{chars_of, trim_white_space, trimmed};

verus! {

/// The window's language.
#[derive(Clone, Copy, Debug, PartialEq, Eq, Structural)]
pub enum Lang {
    Tr,
    En,
}

/// Every window text that needs no argument.
#[derive(Clone, Copy)]
pub struct Strings {
    // Headline card, by state.
    pub protected: &'static str,
    pub protected_body: &'static str,
    pub starting: &'static str,
    pub starting_body: &'static str,
    pub stopped: &'static str,
    pub stopped_body: &'static str,
    pub off: &'static str,
    pub off_body: &'static str,

    // Actions.
    pub protect: &'static str,
    pub start_again: &'static str,
    pub remeasure: &'static str,
    pub remeasure_hover: &'static str,
    pub measuring: &'static str,
    pub removing: &'static str,
    pub uac_declined: &'static str,
    pub install_failed: &'static str,
    pub remove_failed: &'static str,
    pub launch_failed: &'static str,

    // Warnings.
    pub antivirus_body: &'static str,
    pub rival_body: &'static str,

    // Site check.
    pub check_section: &'static str,
    pub check_hint: &'static str,
    pub check_button: &'static str,
    pub checking: &'static str,
    pub open: &'static str,
    pub open_detail: &'static str,
    pub blocked: &'static str,
    pub reset_detail: &'static str,
    pub dropped_detail: &'static str,
    pub broke_detail: &'static str,
    pub ip_blocked: &'static str,
    pub ip_detail: &'static str,
    pub unresolved: &'static str,
    pub unresolved_detail: &'static str,

    // Settings.
    pub settings_section: &'static str,
    pub language: &'static str,
    pub theme: &'static str,
    pub theme_system: &'static str,
    pub theme_light: &'static str,
    pub theme_dark: &'static str,

    // Details.
    pub details: &'static str,
    pub details_body: &'static str,
    pub method: &'static str,
    pub service: &'static str,
    pub running: &'static str,
    pub stopped_word: &'static str,
    pub changing: &'static str,
    pub not_installed: &'static str,
    pub dns: &'static str,
    pub quic: &'static str,
    pub quic_blocked: &'static str,
    pub quic_allowed: &'static str,
    pub watching: &'static str,
    pub last_event: &'static str,
    pub none: &'static str,

    // Remove.
    pub remove_title: &'static str,
    pub remove_body: &'static str,
    pub remove: &'static str,

    // Tray.
    pub tray_open: &'static str,
    pub tray_quit: &'static str,
}

/// The English texts.
pub open spec fn english() -> Strings {
    Strings {
        protected: "You're protected",
        protected_body: "Blocked sites open normally. Mole runs in the background, starts with Windows, and repairs itself if your provider changes something.",
        starting: "Starting…",
        starting_body: "The background service is starting up.",
        stopped: "Mole is paused",
        stopped_body: "It's installed but not running right now, so blocked sites stay blocked.",
        off: "Not set up yet",
        off_body: "Mole tests your connection, finds the method that works on it, and keeps it running in the background. Takes about ten seconds and asks for administrator permission.",
        protect: "Set up protection",
        start_again: "Measure and start",
        remeasure: "Measure again",
        remeasure_hover: "Test the connection again and switch to whatever works best now.",
        measuring: "Testing your connection…",
        removing: "Removing…",
        uac_declined: "Administrator permission wasn't given, so nothing changed.",
        install_failed: "Setup didn't finish. Run install.cmd to see each step.",
        remove_failed: "Mole couldn't be removed. Try uninstall.cmd.",
        launch_failed: "Couldn't start mole.exe. It should sit in the same folder as this window.",
        antivirus_body: "Its network shield can block the driver Mole relies on. If sites stay blocked, add an exception for WinDivert.",
        rival_body: "Two tools changing the same connection break each other. Keep only one of them.",
        check_section: "Check a site",
        check_hint: "www.example.com",
        check_button: "Check",
        checking: "Checking…",
        open: "Open",
        open_detail: "The site loads on this connection.",
        blocked: "Blocked",
        reset_detail: "The connection is cut as soon as the site's name is seen.",
        dropped_detail: "The request gets no answer.",
        broke_detail: "The site answered, but the connection then broke.",
        ip_blocked: "Blocked by address",
        ip_detail: "The site's address itself is blocked. A tool on your computer can't get past that.",
        unresolved: "Not found",
        unresolved_detail: "That name couldn't be looked up. Check the spelling.",
        settings_section: "Settings",
        language: "Language",
        theme: "Theme",
        theme_system: "Use system setting",
        theme_light: "Light",
        theme_dark: "Dark",
        details: "Technical details",
        details_body: "The method in use and the service's state",
        method: "Method",
        service: "Service",
        running: "Running",
        stopped_word: "Stopped",
        changing: "Changing state",
        not_installed: "Not installed",
        dns: "DNS",
        quic: "QUIC",
        quic_blocked: "Blocked",
        quic_allowed: "Allowed",
        watching: "Watched site",
        last_event: "Last event",
        none: "—",
        remove_title: "Remove Mole",
        remove_body: "Stops the service and deletes its files. Your internet keeps working as before.",
        remove: "Remove",
        tray_open: "Open Mole",
        tray_quit: "Quit",
    }
}

/// The Turkish texts.
pub open spec fn turkish() -> Strings {
    Strings {
        protected: "Korunuyorsun",
        protected_body: "Engelli siteler normal açılıyor. Mole arka planda çalışır, Windows ile birlikte başlar ve operatör bir şey değiştirirse kendini yeniden ayarlar.",
        starting: "Başlıyor…",
        starting_body: "Arka plan servisi açılıyor.",
        stopped: "Mole duraklatıldı",
        stopped_body: "Kurulu ama şu an çalışmıyor, bu yüzden engelli siteler engelli kalıyor.",
        off: "Henüz kurulmadı",
        off_body: "Mole bağlantını test eder, sende çalışan yöntemi bulur ve arka planda çalıştırır. Yaklaşık on saniye sürer ve yönetici izni ister.",
        protect: "Korumayı kur",
        start_again: "Ölç ve başlat",
        remeasure: "Yeniden ölç",
        remeasure_hover: "Bağlantıyı yeniden test et ve şu an en iyi çalışan yönteme geç.",
        measuring: "Bağlantın test ediliyor…",
        removing: "Kaldırılıyor…",
        uac_declined: "Yönetici izni verilmedi, hiçbir şey değişmedi.",
        install_failed: "Kurulum tamamlanamadı. Adımları görmek için install.cmd'yi çalıştır.",
        remove_failed: "Mole kaldırılamadı. uninstall.cmd'yi dene.",
        launch_failed: "mole.exe başlatılamadı. Bu pencereyle aynı klasörde olmalı.",
        antivirus_body: "Ağ kalkanı, Mole'un kullandığı sürücüyü engelleyebilir. Siteler açılmazsa WinDivert için bir istisna ekle.",
        rival_body: "Aynı bağlantıyı değiştiren iki araç birbirini bozar. Yalnızca birini tut.",
        check_section: "Site kontrolü",
        check_hint: "www.ornek.com",
        check_button: "Kontrol et",
        checking: "Kontrol ediliyor…",
        open: "Açık",
        open_detail: "Site bu bağlantıda açılıyor.",
        blocked: "Engelli",
        reset_detail: "Sitenin adı görüldüğü anda bağlantı kesiliyor.",
        dropped_detail: "İsteğe hiç yanıt gelmiyor.",
        broke_detail: "Site yanıt verdi ama bağlantı ardından koptu.",
        ip_blocked: "Adresten engelli",
        ip_detail: "Sitenin adresi doğrudan engellenmiş. Bilgisayarındaki bir araç bunu aşamaz.",
        unresolved: "Bulunamadı",
        unresolved_detail: "Bu ad çözülemedi. Yazımı kontrol et.",
        settings_section: "Ayarlar",
        language: "Dil",
        theme: "Tema",
        theme_system: "Sistem ayarını kullan",
        theme_light: "Açık",
        theme_dark: "Koyu",
        details: "Teknik ayrıntılar",
        details_body: "Kullanılan yöntem ve servisin durumu",
        method: "Yöntem",
        service: "Servis",
        running: "Çalışıyor",
        stopped_word: "Durmuş",
        changing: "Durum değişiyor",
        not_installed: "Kurulu değil",
        dns: "DNS",
        quic: "QUIC",
        quic_blocked: "Engelli",
        quic_allowed: "Serbest",
        watching: "İzlenen site",
        last_event: "Son olay",
        none: "—",
        remove_title: "Mole'u kaldır",
        remove_body: "Servisi durdurur ve dosyalarını siler. İnternetin eskisi gibi çalışmaya devam eder.",
        remove: "Kaldır",
        tray_open: "Mole'u aç",
        tray_quit: "Çık",
    }
}

/// The texts of a language.
pub open spec fn texts_of(lang: Lang) -> Strings {
    match lang {
        Lang::Tr => turkish(),
        Lang::En => english(),
    }
}

impl Lang {
    /// The window texts in this language.
    pub fn strings(self) -> (r: Strings)
        ensures
            r == texts_of(self),
    {
        match self {
            Lang::Tr => Strings {
                protected: "Korunuyorsun",
                protected_body: "Engelli siteler normal açılıyor. Mole arka planda çalışır, Windows ile birlikte başlar ve operatör bir şey değiştirirse kendini yeniden ayarlar.",
                starting: "Başlıyor…",
                starting_body: "Arka plan servisi açılıyor.",
                stopped: "Mole duraklatıldı",
                stopped_body: "Kurulu ama şu an çalışmıyor, bu yüzden engelli siteler engelli kalıyor.",
                off: "Henüz kurulmadı",
                off_body: "Mole bağlantını test eder, sende çalışan yöntemi bulur ve arka planda çalıştırır. Yaklaşık on saniye sürer ve yönetici izni ister.",
                protect: "Korumayı kur",
                start_again: "Ölç ve başlat",
                remeasure: "Yeniden ölç",
                remeasure_hover: "Bağlantıyı yeniden test et ve şu an en iyi çalışan yönteme geç.",
                measuring: "Bağlantın test ediliyor…",
                removing: "Kaldırılıyor…",
                uac_declined: "Yönetici izni verilmedi, hiçbir şey değişmedi.",
                install_failed: "Kurulum tamamlanamadı. Adımları görmek için install.cmd'yi çalıştır.",
                remove_failed: "Mole kaldırılamadı. uninstall.cmd'yi dene.",
                launch_failed: "mole.exe başlatılamadı. Bu pencereyle aynı klasörde olmalı.",
                antivirus_body: "Ağ kalkanı, Mole'un kullandığı sürücüyü engelleyebilir. Siteler açılmazsa WinDivert için bir istisna ekle.",
                rival_body: "Aynı bağlantıyı değiştiren iki araç birbirini bozar. Yalnızca birini tut.",
                check_section: "Site kontrolü",
                check_hint: "www.ornek.com",
                check_button: "Kontrol et",
                checking: "Kontrol ediliyor…",
                open: "Açık",
                open_detail: "Site bu bağlantıda açılıyor.",
                blocked: "Engelli",
                reset_detail: "Sitenin adı görüldüğü anda bağlantı kesiliyor.",
                dropped_detail: "İsteğe hiç yanıt gelmiyor.",
                broke_detail: "Site yanıt verdi ama bağlantı ardından koptu.",
                ip_blocked: "Adresten engelli",
                ip_detail: "Sitenin adresi doğrudan engellenmiş. Bilgisayarındaki bir araç bunu aşamaz.",
                unresolved: "Bulunamadı",
                unresolved_detail: "Bu ad çözülemedi. Yazımı kontrol et.",
                settings_section: "Ayarlar",
                language: "Dil",
                theme: "Tema",
                theme_system: "Sistem ayarını kullan",
                theme_light: "Açık",
                theme_dark: "Koyu",
                details: "Teknik ayrıntılar",
                details_body: "Kullanılan yöntem ve servisin durumu",
                method: "Yöntem",
                service: "Servis",
                running: "Çalışıyor",
                stopped_word: "Durmuş",
                changing: "Durum değişiyor",
                not_installed: "Kurulu değil",
                dns: "DNS",
                quic: "QUIC",
                quic_blocked: "Engelli",
                quic_allowed: "Serbest",
                watching: "İzlenen site",
                last_event: "Son olay",
                none: "—",
                remove_title: "Mole'u kaldır",
                remove_body: "Servisi durdurur ve dosyalarını siler. İnternetin eskisi gibi çalışmaya devam eder.",
                remove: "Kaldır",
                tray_open: "Mole'u aç",
                tray_quit: "Çık",
            },
            Lang::En => Strings {
                protected: "You're protected",
                protected_body: "Blocked sites open normally. Mole runs in the background, starts with Windows, and repairs itself if your provider changes something.",
                starting: "Starting…",
                starting_body: "The background service is starting up.",
                stopped: "Mole is paused",
                stopped_body: "It's installed but not running right now, so blocked sites stay blocked.",
                off: "Not set up yet",
                off_body: "Mole tests your connection, finds the method that works on it, and keeps it running in the background. Takes about ten seconds and asks for administrator permission.",
                protect: "Set up protection",
                start_again: "Measure and start",
                remeasure: "Measure again",
                remeasure_hover: "Test the connection again and switch to whatever works best now.",
                measuring: "Testing your connection…",
                removing: "Removing…",
                uac_declined: "Administrator permission wasn't given, so nothing changed.",
                install_failed: "Setup didn't finish. Run install.cmd to see each step.",
                remove_failed: "Mole couldn't be removed. Try uninstall.cmd.",
                launch_failed: "Couldn't start mole.exe. It should sit in the same folder as this window.",
                antivirus_body: "Its network shield can block the driver Mole relies on. If sites stay blocked, add an exception for WinDivert.",
                rival_body: "Two tools changing the same connection break each other. Keep only one of them.",
                check_section: "Check a site",
                check_hint: "www.example.com",
                check_button: "Check",
                checking: "Checking…",
                open: "Open",
                open_detail: "The site loads on this connection.",
                blocked: "Blocked",
                reset_detail: "The connection is cut as soon as the site's name is seen.",
                dropped_detail: "The request gets no answer.",
                broke_detail: "The site answered, but the connection then broke.",
                ip_blocked: "Blocked by address",
                ip_detail: "The site's address itself is blocked. A tool on your computer can't get past that.",
                unresolved: "Not found",
                unresolved_detail: "That name couldn't be looked up. Check the spelling.",
                settings_section: "Settings",
                language: "Language",
                theme: "Theme",
                theme_system: "Use system setting",
                theme_light: "Light",
                theme_dark: "Dark",
                details: "Technical details",
                details_body: "The method in use and the service's state",
                method: "Method",
                service: "Service",
                running: "Running",
                stopped_word: "Stopped",
                changing: "Changing state",
                not_installed: "Not installed",
                dns: "DNS",
                quic: "QUIC",
                quic_blocked: "Blocked",
                quic_allowed: "Allowed",
                watching: "Watched site",
                last_event: "Last event",
                none: "—",
                remove_title: "Remove Mole",
                remove_body: "Stops the service and deletes its files. Your internet keeps working as before.",
                remove: "Remove",
                tray_open: "Open Mole",
                tray_quit: "Quit",
            },
        }
    }

    /// The language's own name, for the picker.
    pub fn name(self) -> (r: &'static str)
        ensures
            r@ == match self {
                Lang::Tr => "Türkçe"@,
                Lang::En => "English"@,
            },
    {
        match self {
            Lang::Tr => "Türkçe",
            Lang::En => "English",
        }
    }

    /// The warning title for an antivirus that may block the driver.
    pub fn antivirus_title(self, av: &str) -> (r: String)
        ensures
            r@ == match self {
                Lang::Tr => av@ + " bağlantıyı engelleyebilir"@,
                Lang::En => av@ + " may get in the way"@,
            },
    {
        let mut s = String::from_str(av);
        match self {
            Lang::Tr => s.append(" bağlantıyı engelleyebilir"),
            Lang::En => s.append(" may get in the way"),
        }
        s
    }

    /// The warning title for another DPI tool that is running.
    pub fn rival_title(self, name: &str) -> (r: String)
        ensures
            r@ == match self {
                Lang::Tr => name@ + " da çalışıyor"@,
                Lang::En => name@ + " is also running"@,
            },
    {
        let mut s = String::from_str(name);
        match self {
            Lang::Tr => s.append(" da çalışıyor"),
            Lang::En => s.append(" is also running"),
        }
        s
    }

    /// The language for a Windows locale name: Turkish for `tr…` in any ASCII
    /// case, English otherwise.
    pub fn for_locale(locale: &str) -> (r: Lang)
        ensures
            r == if is_turkish_locale(locale@) {
                Lang::Tr
            } else {
                Lang::En
            },
    {
        let v = chars_of(locale);
        if v.len() >= 2 && (v[0] == 't' || v[0] == 'T') && (v[1] == 'r' || v[1] == 'R') {
            Lang::Tr
        } else {
            Lang::En
        }
    }
}

/// Whether a locale name starts with `tr`, in any ASCII case.
pub open spec fn is_turkish_locale(s: Seq<char>) -> bool {
    s.len() >= 2 && (s[0] == 't' || s[0] == 'T') && (s[1] == 'r' || s[1] == 'R')
}

/// The service's state, in the window's terms.
#[derive(Clone, Copy, Debug, PartialEq, Eq, Structural)]
pub enum Health {
    Protected,
    Starting,
    Stopped,
    Off,
}

/// The service manager's state code for a running service.
pub const SERVICE_RUNNING: u32 = 4;

/// The service manager's state code for a stopped service.
pub const SERVICE_STOPPED: u32 = 1;

/// A snapshot of everything the window shows.
pub struct Status {
    /// The service's state code, or `None` if it is not installed.
    pub service_state: Option<u32>,
    pub config: Option<Config>,
    pub antivirus: Option<String>,
    pub rival: Option<String>,
    /// The newest line of the service log, if any.
    pub last_event: Option<String>,
}

impl Status {
    /// The snapshot of what was read: the service state, the saved
    /// configuration, an interfering antivirus and a rival tool if any, and
    /// the newest lines of the service log (the last of which is shown).
    pub fn gather(
        service_state: Option<u32>,
        config: Option<Config>,
        antivirus: Option<String>,
        rival: Option<String>,
        log_tail: Vec<String>,
    ) -> (r: Status)
        ensures
            r.service_state == service_state,
            r.config == config,
            r.antivirus == antivirus,
            r.rival == rival,
            log_tail@.len() == 0 ==> r.last_event is None,
            log_tail@.len() > 0 ==> r.last_event == Some(log_tail@.last()),
    {
        let mut log_tail = log_tail;
        let last_event = log_tail.pop();
        Status { service_state, config, antivirus, rival, last_event }
    }

    /// Whether the service is installed.
    pub fn is_installed(&self) -> (r: bool)
        ensures
            r == self.service_state is Some,
    {
        self.service_state.is_some()
    }

    /// What the service state means: running is protected, stopped is
    /// paused, any other state is on its way, and no service is off.
    pub fn health(&self) -> (r: Health)
        ensures
            r == match self.service_state {
                Some(s) => if s == SERVICE_RUNNING {
                    Health::Protected
                } else if s == SERVICE_STOPPED {
                    Health::Stopped
                } else {
                    Health::Starting
                },
                None => Health::Off,
            },
    {
        match self.service_state {
            Some(4) => Health::Protected,
            Some(1) => Health::Stopped,
            Some(_) => Health::Starting,
            None => Health::Off,
        }
    }
}

/// The tray tooltip for a health.
pub fn status_tip(lang: Lang, health: Health) -> (r: &'static str)
    ensures
        r == match health {
            Health::Protected => texts_of(lang).protected,
            Health::Starting => texts_of(lang).starting,
            Health::Stopped => texts_of(lang).stopped,
            Health::Off => texts_of(lang).off,
        },
{
    let s = lang.strings();
    match health {
        Health::Protected => s.protected,
        Health::Starting => s.starting,
        Health::Stopped => s.stopped,
        Health::Off => s.off,
    }
}

/// What the tray asks for.
#[derive(Clone, Copy, Debug, PartialEq, Eq, Structural)]
pub enum TrayAction {
    /// Nothing to do.
    Idle,
    Open,
    Quit,
}

/// A button's weight.
#[derive(Clone, Copy, Debug, PartialEq, Eq, Structural)]
pub enum ButtonKind {
    /// The one main action on screen.
    Primary,
    /// Everything else.
    Standard,
}

/// The status badge's glyph.
#[derive(Clone, Copy, Debug, PartialEq, Eq, Structural)]
pub enum Badge {
    Check,
    Alert,
    Dash,
}

/// The headline card for a health: badge, title, body, the action button if
/// any, and the hover text of that button if any.
pub struct Headline {
    pub badge: Badge,
    pub title: &'static str,
    pub body: &'static str,
    pub action: Option<(ButtonKind, &'static str)>,
    pub hover: Option<&'static str>,
}

/// The headline card for a health: protected offers to measure again, a
/// paused or missing service offers to set it up, a starting one offers
/// nothing.
pub fn headline(lang: Lang, health: Health) -> (r: Headline)
    ensures
        ({
            let s = texts_of(lang);
            match health {
                Health::Protected => r.badge == Badge::Check && r.title == s.protected && r.body
                    == s.protected_body && r.action == Some((ButtonKind::Standard, s.remeasure))
                    && r.hover == Some(s.remeasure_hover),
                Health::Starting => r.badge == Badge::Dash && r.title == s.starting && r.body
                    == s.starting_body && r.action is None && r.hover is None,
                Health::Stopped => r.badge == Badge::Alert && r.title == s.stopped && r.body
                    == s.stopped_body && r.action == Some((ButtonKind::Primary, s.start_again))
                    && r.hover is None,
                Health::Off => r.badge == Badge::Dash && r.title == s.off && r.body == s.off_body
                    && r.action == Some((ButtonKind::Primary, s.protect)) && r.hover is None,
            }
        }),
{
    let s = lang.strings();
    match health {
        Health::Protected => Headline {
            badge: Badge::Check,
            title: s.protected,
            body: s.protected_body,
            action: Some((ButtonKind::Standard, s.remeasure)),
            hover: Some(s.remeasure_hover),
        },
        Health::Starting => Headline {
            badge: Badge::Dash,
            title: s.starting,
            body: s.starting_body,
            action: None,
            hover: None,
        },
        Health::Stopped => Headline {
            badge: Badge::Alert,
            title: s.stopped,
            body: s.stopped_body,
            action: Some((ButtonKind::Primary, s.start_again)),
            hover: None,
        },
        Health::Off => Headline {
            badge: Badge::Dash,
            title: s.off,
            body: s.off_body,
            action: Some((ButtonKind::Primary, s.protect)),
            hover: None,
        },
    }
}

/// The warning bars for a snapshot: an antivirus first, then a rival tool,
/// each a title and a body.
pub fn warnings(lang: Lang, status: &Status) -> (r: Vec<(String, &'static str)>)
    ensures
        ({
            let s = texts_of(lang);
            let av = match status.antivirus {
                Some(a) => seq![(lang_antivirus_title(lang, a@), s.antivirus_body)],
                None => Seq::empty(),
            };
            let rv = match status.rival {
                Some(n) => seq![(lang_rival_title(lang, n@), s.rival_body)],
                None => Seq::empty(),
            };
            r@.map_values(|b: (String, &'static str)| (b.0@, b.1)) == av + rv
        }),
{
    let s = lang.strings();
    let mut bars: Vec<(String, &'static str)> = Vec::new();
    if let Some(av) = &status.antivirus {
        bars.push((lang.antivirus_title(av.as_str()), s.antivirus_body));
    }
    let ghost first = bars@;
    if let Some(r) = &status.rival {
        bars.push((lang.rival_title(r.as_str()), s.rival_body));
    }
    proof {
        let f = |b: (String, &'static str)| (b.0@, b.1);
        assert(bars@.map_values(f) =~= ({
            let av = match status.antivirus {
                Some(a) => seq![(lang_antivirus_title(lang, a@), s.antivirus_body)],
                None => Seq::<(Seq<char>, &'static str)>::empty(),
            };
            let rv = match status.rival {
                Some(n) => seq![(lang_rival_title(lang, n@), s.rival_body)],
                None => Seq::<(Seq<char>, &'static str)>::empty(),
            };
            av + rv
        }));
    }
    bars
}

/// The antivirus warning title, as [`Lang::antivirus_title`] writes it.
pub open spec fn lang_antivirus_title(lang: Lang, av: Seq<char>) -> Seq<char> {
    match lang {
        Lang::Tr => av + " bağlantıyı engelleyebilir"@,
        Lang::En => av + " may get in the way"@,
    }
}

/// The rival warning title, as [`Lang::rival_title`] writes it.
pub open spec fn lang_rival_title(lang: Lang, name: Seq<char>) -> Seq<char> {
    match lang {
        Lang::Tr => name + " da çalışıyor"@,
        Lang::En => name + " is also running"@,
    }
}

/// How a site check's result is coloured.
#[derive(Clone, Copy, Debug, PartialEq, Eq, Structural)]
pub enum Tone {
    Success,
    Critical,
    Caution,
}

/// What a site check came to: a word, a sentence, and a tone.
pub fn check_result(lang: Lang, r: &Reachable) -> (out: (&'static str, &'static str, Tone))
    ensures
        ({
            let s = texts_of(lang);
            out == match *r {
                Reachable::Yes => (s.open, s.open_detail, Tone::Success),
                Reachable::Blocked(Block::Reset) => (s.blocked, s.reset_detail, Tone::Critical),
                Reachable::Blocked(Block::Dropped) => (s.blocked, s.dropped_detail, Tone::Critical),
                Reachable::Blocked(Block::Broke) => (s.blocked, s.broke_detail, Tone::Critical),
                Reachable::IpBlocked => (s.ip_blocked, s.ip_detail, Tone::Critical),
                Reachable::DnsFailed(_) => (s.unresolved, s.unresolved_detail, Tone::Caution),
            }
        }),
{
    let s = lang.strings();
    match r {
        Reachable::Yes => (s.open, s.open_detail, Tone::Success),
        Reachable::Blocked(Block::Reset) => (s.blocked, s.reset_detail, Tone::Critical),
        Reachable::Blocked(Block::Dropped) => (s.blocked, s.dropped_detail, Tone::Critical),
        Reachable::Blocked(Block::Broke) => (s.blocked, s.broke_detail, Tone::Critical),
        Reachable::IpBlocked => (s.ip_blocked, s.ip_detail, Tone::Critical),
        Reachable::DnsFailed(_) => (s.unresolved, s.unresolved_detail, Tone::Caution),
    }
}

/// The host a site check should look at: the input without surrounding
/// white space, or nothing to check if that is empty.
pub fn check_host(input: &str) -> (r: Option<String>)
    ensures
        trimmed(input@).len() == 0 ==> r is None,
        trimmed(input@).len() > 0 ==> (r matches Some(h) && h@ == trimmed(input@)),
{
    let t = trim_white_space(input);
    if t.as_str().unicode_len() == 0 {
        None
    } else {
        Some(t)
    }
}

/// A privileged action run in an elevated `mole.exe`.
#[derive(Clone, Copy, Debug, PartialEq, Eq, Structural)]
pub enum Job {
    Install,
    Remove,
}

impl Job {
    /// The arguments `mole.exe` gets for the job.
    pub fn args(self) -> (r: &'static str)
        ensures
            r@ == match self {
                Job::Install => "install --auto"@,
                Job::Remove => "uninstall"@,
            },
    {
        match self {
            Job::Install => "install --auto",
            Job::Remove => "uninstall",
        }
    }

    /// The text shown while the job runs.
    pub fn busy_text(self, lang: Lang) -> (r: &'static str)
        ensures
            r == match self {
                Job::Install => texts_of(lang).measuring,
                Job::Remove => texts_of(lang).removing,
            },
    {
        let s = lang.strings();
        match self {
            Job::Install => s.measuring,
            Job::Remove => s.removing,
        }
    }
}

/// How an elevated run ended.
#[derive(Clone, Copy, Debug, PartialEq, Eq, Structural)]
pub enum Outcome {
    /// The process ran; its exit code (0 is success).
    Exited(u32),
    /// The user said no at the elevation prompt.
    Declined,
    /// It could not be started at all.
    LaunchFailed,
}

/// A line under the headline after a job, and whether it reports a failure.
pub struct Notice {
    pub text: String,
    pub failure: bool,
}

/// The notice a finished job leaves: none on success, the job's failure
/// text on a non-zero exit, a calm note when elevation was declined, and a
/// failure when `mole.exe` could not start.
pub fn notice_for(lang: Lang, job: Job, outcome: Outcome) -> (r: Option<Notice>)
    ensures
        ({
            let s = texts_of(lang);
            match outcome {
                Outcome::Exited(0) => r is None,
                Outcome::Exited(_) => r matches Some(n) && n.failure && n.text@ == (match job {
                    Job::Install => s.install_failed,
                    Job::Remove => s.remove_failed,
                })@,
                Outcome::Declined => r matches Some(n) && !n.failure && n.text@ == s.uac_declined@,
                Outcome::LaunchFailed => r matches Some(n) && n.failure && n.text@
                    == s.launch_failed@,
            }
        }),
{
    let s = lang.strings();
    match outcome {
        Outcome::Exited(0) => None,
        Outcome::Exited(_) => {
            let text = match job {
                Job::Install => s.install_failed,
                Job::Remove => s.remove_failed,
            };
            Some(Notice { text: String::from_str(text), failure: true })
        },
        Outcome::Declined => Some(Notice { text: String::from_str(s.uac_declined), failure: false }),
        Outcome::LaunchFailed => Some(
            Notice { text: String::from_str(s.launch_failed), failure: true },
        ),
    }
}

/// The argument after the first `flag`, if both are there.
pub fn arg_value(args: &[String], flag: &str) -> (r: Option<String>)
    ensures
        match r {
            Some(v) => exists|i: int|
                0 <= i && i + 1 < args@.len() && (#[trigger] args@[i])@ == flag@ && (forall|j: int|
                    0 <= j < i ==> args@[j]@ != flag@) && v@ == args@[i + 1]@,
            None => forall|i: int|
                0 <= i < args@.len() && (#[trigger] args@[i])@ == flag@ ==> (i + 1 >= args@.len()
                    || exists|j: int| 0 <= j < i && args@[j]@ == flag@),
        },
{
    let mut i: usize = 0;
    while i < args.len()
        invariant
            i <= args@.len(),
            forall|j: int| 0 <= j < i ==> args@[j]@ != flag@,
        decreases args@.len() - i,
    {
        if crate::text::text_is(args[i].as_str(), flag) {
            if i + 1 < args.len() {
                return Some(args[i + 1].clone());
            }
            return None;
        }
        i = i + 1;
    }
    None
}

/// One line of the technical details: a label, a value, and whether the
/// value is set in a fixed-width font.
pub struct Fact {
    pub label: &'static str,
    pub value: String,
    pub mono: bool,
}

/// The word for the service's state in the details.
pub open spec fn service_word(s: Strings, state: Option<u32>) -> &'static str {
    match state {
        Some(v) => if v == SERVICE_RUNNING {
            s.running
        } else if v == SERVICE_STOPPED {
            s.stopped_word
        } else {
            s.changing
        },
        None => s.not_installed,
    }
}

/// The technical details of a snapshot: the service's state, then the
/// method, resolver, QUIC choice and watched site of the saved configuration
/// (the site only if one is set), or that there is no method.
pub open spec fn facts_of(lang: Lang, st: Status) -> Seq<(&'static str, Seq<char>, bool)> {
    let s = texts_of(lang);
    seq![(s.service, service_word(s, st.service_state)@, false)] + match st.config {
        Some(c) => seq![
            (s.method, c.strategy@, true),
            (s.dns, c.resolver@ + " (DoH)"@, false),
            (s.quic, (if c.block_quic {
                s.quic_blocked
            } else {
                s.quic_allowed
            })@, false),
        ] + if trimmed(c.canary@).len() > 0 {
            seq![(s.watching, c.canary@, false)]
        } else {
            Seq::empty()
        },
        None => seq![(s.method, s.none@, false)],
    }
}

/// The technical details of a snapshot, line by line.
pub fn details_facts(lang: Lang, st: &Status) -> (r: Vec<Fact>)
    ensures
        r@.map_values(|f: Fact| (f.label, f.value@, f.mono)) == facts_of(lang, *st),
{
    let s = lang.strings();
    let word = match st.service_state {
        Some(4) => s.running,
        Some(1) => s.stopped_word,
        Some(_) => s.changing,
        None => s.not_installed,
    };
    let mut r: Vec<Fact> = Vec::new();
    r.push(Fact { label: s.service, value: String::from_str(word), mono: false });
    match &st.config {
        Some(c) => {
            r.push(Fact { label: s.method, value: c.strategy.clone(), mono: true });
            let mut dns = c.resolver.clone();
            dns.append(" (DoH)");
            r.push(Fact { label: s.dns, value: dns, mono: false });
            let quic = if c.block_quic {
                s.quic_blocked
            } else {
                s.quic_allowed
            };
            r.push(Fact { label: s.quic, value: String::from_str(quic), mono: false });
            let t = trim_white_space(c.canary.as_str());
            if t.as_str().unicode_len() > 0 {
                r.push(Fact { label: s.watching, value: c.canary.clone(), mono: false });
            }
        },
        None => {
            r.push(Fact { label: s.method, value: String::from_str(s.none), mono: false });
        },
    }
    assert(r@.map_values(|f: Fact| (f.label, f.value@, f.mono)) =~= facts_of(lang, *st));
    r
}

/// Which palette the window uses.
#[derive(Clone, Copy, Debug, PartialEq, Eq, Structural)]
pub enum ThemeChoice {
    /// Follow the system's light or dark setting.
    System,
    Light,
    Dark,
}

/// The window's language: `--lang tr` or `--lang en` when given, else the
/// stored choice, else the one the Windows locale suggests.
pub fn startup_lang(flag: Option<&str>, stored: Option<Lang>, locale_default: Lang) -> (r: Lang)
    ensures
        r == match flag {
            Some(f) => if f@ == "tr"@ {
                Lang::Tr
            } else if f@ == "en"@ {
                Lang::En
            } else {
                match stored {
                    Some(l) => l,
                    None => locale_default,
                }
            },
            None => match stored {
                Some(l) => l,
                None => locale_default,
            },
        },
{
    if let Some(f) = flag {
        if crate::text::text_is(f, "tr") {
            return Lang::Tr;
        }
        if crate::text::text_is(f, "en") {
            return Lang::En;
        }
    }
    match stored {
        Some(l) => l,
        None => locale_default,
    }
}

/// The window's theme: `--theme light` or `--theme dark` when given, else
/// the stored choice, else following the system.
pub fn startup_theme(flag: Option<&str>, stored: Option<ThemeChoice>) -> (r: ThemeChoice)
    ensures
        r == match flag {
            Some(f) => if f@ == "light"@ {
                ThemeChoice::Light
            } else if f@ == "dark"@ {
                ThemeChoice::Dark
            } else {
                match stored {
                    Some(t) => t,
                    None => ThemeChoice::System,
                }
            },
            None => match stored {
                Some(t) => t,
                None => ThemeChoice::System,
            },
        },
{
    if let Some(f) = flag {
        if crate::text::text_is(f, "light") {
            return ThemeChoice::Light;
        }
        if crate::text::text_is(f, "dark") {
            return ThemeChoice::Dark;
        }
    }
    match stored {
        Some(t) => t,
        None => ThemeChoice::System,
    }
}

/// Whether the window is dark: as chosen, or as the system says when
/// following it (light if the system says nothing).
pub fn is_dark(choice: ThemeChoice, system_dark: Option<bool>) -> (r: bool)
    ensures
        r == match choice {
            ThemeChoice::Light => false,
            ThemeChoice::Dark => true,
            ThemeChoice::System => system_dark == Some(true),
        },
{
    match choice {
        ThemeChoice::Light => false,
        ThemeChoice::Dark => true,
        ThemeChoice::System => match system_dark {
            Some(d) => d,
            None => false,
        },
    }
}

/// How soon the window looks again, in milliseconds: often while the tray
/// needs polling or a job runs, every two seconds otherwise.
pub fn repaint_after_ms(has_tray: bool, job_running: bool) -> (r: u64)
    ensures
        r == if has_tray || job_running {
            400u64
        } else {
            2000u64
        },
{
    if has_tray || job_running {
        400
    } else {
        2000
    }
}

} // verus!

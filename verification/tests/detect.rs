use forge_backup::error::AppError;
use forge_backup::site::{detect_site_type, fingerprint_paths, SiteType};

fn listing(paths: &[&str]) -> Vec<String> {
    paths.iter().map(|p| p.to_string()).collect()
}

fn detect(paths: &[&str]) -> Option<SiteType> {
    match detect_site_type(&listing(paths)) {
        Ok(kind) => Some(kind),
        Err(AppError::UnknownSite) => None,
        Err(other) => panic!("detection failed with {:?}", other),
    }
}

const LARAVEL: [&str; 3] = ["artisan", "composer.json", "config/app.php"];
const WORDPRESS: [&str; 3] = ["wp-config.php", "wp-load.php", "wp-content"];
const RAILS: [&str; 3] = ["config.ru", "Gemfile", "bin/rails"];
const DRUPAL: [&str; 3] = [
    "index.php",
    "core/includes/bootstrap.inc",
    "sites/default/settings.php",
];
const MAGENTO: [&str; 3] = ["index.php", "app/etc/env.php", "app/Mage.php"];

#[test]
fn detects_laravel() {
    assert_eq!(detect(&LARAVEL), Some(SiteType::Laravel));
}

#[test]
fn detects_wordpress() {
    assert_eq!(detect(&WORDPRESS), Some(SiteType::Wordpress));
}

#[test]
fn detects_rails() {
    assert_eq!(detect(&RAILS), Some(SiteType::Rails));
}

#[test]
fn detects_django() {
    assert_eq!(
        detect(&["manage.py", "requirements.txt"]),
        Some(SiteType::Django)
    );
    assert_eq!(detect(&["manage.py", "Pipfile"]), Some(SiteType::Django));
}

#[test]
fn detects_express() {
    assert_eq!(
        detect(&["app.js", "package.json"]),
        Some(SiteType::Express)
    );
    assert_eq!(
        detect(&["server.js", "package.json"]),
        Some(SiteType::Express)
    );
}

#[test]
fn detects_flask() {
    assert_eq!(
        detect(&["app.py", "requirements.txt"]),
        Some(SiteType::Flask)
    );
    assert_eq!(
        detect(&["main.py", "requirements.txt"]),
        Some(SiteType::Flask)
    );
}

#[test]
fn detects_drupal() {
    assert_eq!(detect(&DRUPAL), Some(SiteType::Drupal));
}

#[test]
fn detects_magento() {
    assert_eq!(detect(&MAGENTO), Some(SiteType::Magento));
}

#[test]
fn empty_directory_is_unknown() {
    assert!(matches!(
        detect_site_type(&Vec::new()),
        Err(AppError::UnknownSite)
    ));
}

#[test]
fn incomplete_fingerprints_are_unknown() {
    assert_eq!(detect(&["artisan", "composer.json"]), None);
    assert_eq!(detect(&["wp-config.php", "wp-content"]), None);
    assert_eq!(detect(&["config.ru", "Gemfile"]), None);
    assert_eq!(detect(&["manage.py"]), None);
    assert_eq!(detect(&["requirements.txt", "Pipfile"]), None);
    assert_eq!(detect(&["app.js", "server.js"]), None);
    assert_eq!(detect(&["package.json"]), None);
    assert_eq!(detect(&["app.py", "main.py"]), None);
    assert_eq!(detect(&["index.php", "app/etc/env.php"]), None);
    assert_eq!(detect(&["index.php", "core/includes/bootstrap.inc"]), None);
    assert_eq!(detect(&["README.md", "src", "Cargo.toml"]), None);
}

#[test]
fn paths_are_compared_whole() {
    assert_eq!(detect(&["Artisan", "composer.json", "config/app.php"]), None);
    assert_eq!(detect(&["artisan ", "composer.json", "config/app.php"]), None);
    assert_eq!(detect(&["artisan", "composer.json", "app.php"]), None);
}

#[test]
fn order_of_the_listing_plays_no_part() {
    assert_eq!(
        detect(&["config/app.php", "zzz", "composer.json", "artisan", "artisan"]),
        Some(SiteType::Laravel)
    );
}

#[test]
fn drupal_wins_over_magento() {
    let mut both: Vec<&str> = Vec::new();
    both.extend(MAGENTO);
    both.extend(DRUPAL);
    assert_eq!(detect(&both), Some(SiteType::Drupal));
}

#[test]
fn laravel_wins_over_wordpress() {
    let mut both: Vec<&str> = Vec::new();
    both.extend(WORDPRESS);
    both.extend(LARAVEL);
    assert_eq!(detect(&both), Some(SiteType::Laravel));
}

#[test]
fn rails_wins_over_django() {
    let mut both: Vec<&str> = vec!["manage.py", "requirements.txt"];
    both.extend(RAILS);
    assert_eq!(detect(&both), Some(SiteType::Rails));
}

#[test]
fn django_wins_over_flask() {
    assert_eq!(
        detect(&["app.py", "requirements.txt", "manage.py"]),
        Some(SiteType::Django)
    );
}

#[test]
fn express_wins_over_flask() {
    assert_eq!(
        detect(&["app.py", "requirements.txt", "app.js", "package.json"]),
        Some(SiteType::Express)
    );
}

#[test]
fn wordpress_wins_over_drupal_and_magento() {
    let mut all: Vec<&str> = Vec::new();
    all.extend(MAGENTO);
    all.extend(DRUPAL);
    all.extend(WORDPRESS);
    assert_eq!(detect(&all), Some(SiteType::Wordpress));
}

#[test]
fn every_fingerprint_path_present_is_laravel() {
    assert!(matches!(
        detect_site_type(&fingerprint_paths()),
        Ok(SiteType::Laravel)
    ));
}

#[test]
fn fingerprint_paths_are_the_twenty_two_of_the_table() {
    let paths = fingerprint_paths();
    let expected = [
        "artisan",
        "composer.json",
        "config/app.php",
        "wp-config.php",
        "wp-load.php",
        "wp-content",
        "config.ru",
        "Gemfile",
        "bin/rails",
        "manage.py",
        "requirements.txt",
        "Pipfile",
        "app.js",
        "server.js",
        "package.json",
        "app.py",
        "main.py",
        "index.php",
        "core/includes/bootstrap.inc",
        "sites/default/settings.php",
        "app/etc/env.php",
        "app/Mage.php",
    ];
    assert_eq!(paths, listing(&expected));
}

#[test]
fn detection_reads_the_listed_paths_only() {
    // Every subset of the paths of two fingerprints, with a path that no
    // fingerprint knows thrown in, is detected as without it.
    let pool = [
        "index.php",
        "core/includes/bootstrap.inc",
        "sites/default/settings.php",
        "app/etc/env.php",
        "app/Mage.php",
    ];
    for mask in 0u32..(1 << pool.len()) {
        let mut present: Vec<&str> = Vec::new();
        for (i, path) in pool.iter().enumerate() {
            if mask & (1 << i) != 0 {
                present.push(path);
            }
        }
        let plain = detect(&present);
        present.push("vendor/autoload.php");
        assert_eq!(detect(&present), plain);
        let drupal = mask & 0b00111 == 0b00111;
        let magento = mask & 0b11001 == 0b11001;
        let expected = if drupal {
            Some(SiteType::Drupal)
        } else if magento {
            Some(SiteType::Magento)
        } else {
            None
        };
        assert_eq!(plain, expected);
    }
}

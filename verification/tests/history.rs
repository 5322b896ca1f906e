use wherearethey::history::{history_dir, history_file, log_install};
use wherearethey::types::InstallEvent;

fn strings(v: &[&str]) -> Vec<String> {
    v.iter().map(|s| s.to_string()).collect()
}

fn fields(e: &InstallEvent) -> (String, String, String, Vec<String>) {
    (e.timestamp.clone(), e.source.clone(), e.action.clone(), e.packages.clone())
}

#[test]
fn logging_appends_one_event() {
    let mut h: Vec<InstallEvent> = Vec::new();
    log_install(&mut h, Some("2025-06-01 10:00:00\n".to_string()), "brew", "install", &strings(&["ffmpeg", "wget"]));
    assert_eq!(h.len(), 1);
    assert_eq!(
        fields(&h[0]),
        ("2025-06-01 10:00:00".to_string(), "brew".to_string(), "install".to_string(), strings(&["ffmpeg", "wget"]))
    );
    log_install(&mut h, None, "npm", "uninstall", &strings(&["typescript"]));
    assert_eq!(h.len(), 2);
    assert_eq!(fields(&h[0]).1, "brew");
    assert_eq!(
        fields(&h[1]),
        ("unknown".to_string(), "npm".to_string(), "uninstall".to_string(), strings(&["typescript"]))
    );
}

#[test]
fn history_files_location() {
    assert_eq!(history_dir("/Users/me"), "/Users/me/.wherearethey");
    assert_eq!(history_file("/Users/me"), "/Users/me/.wherearethey/history.json");
}

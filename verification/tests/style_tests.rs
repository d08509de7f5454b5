use appshell::style::style_source;

#[test]
fn missing_style_file_falls_back_to_embedded_default() {
    let embedded = b"embedded default style document".to_vec();
    let chosen = style_source(None, embedded.clone());
    assert_eq!(chosen, embedded);
}

#[test]
fn on_disk_style_wins_when_present() {
    let embedded = b"embedded default style document".to_vec();
    let disk = b"user edited style".to_vec();
    let chosen = style_source(Some(disk.clone()), embedded);
    assert_eq!(chosen, disk);
}

use mindustry_logic_bang_lang::display_source::DisplaySourceMeta;

#[test]
fn test() {
    let mut meta = DisplaySourceMeta::new();
    meta.do_block(|self_| {
        self_.push("abc")
    });
    assert_eq!(meta, "    abc");
    meta.push("d");
    assert_eq!(meta, "    abcd");
    meta.add_lf();
    meta.push("x");
    assert_eq!(meta, "    abcd\nx");
    meta.add_lf();
    assert_eq!(meta, "    abcd\nx\n");
    let _ = meta.pop_lf();
    assert_eq!(meta, "    abcd\nx");
    let _ = meta.pop_lf();
    assert_eq!(meta, "    abcd\nx");
}

use embed_js::aggregate::{merge_manifests, Manifest};
use embed_js::postprocess::{link_module, postprocess_crate, PostProcessError};
use embed_js::snippet::{JsMac, JsMacArg, WasmPrimitiveType};
use embed_js::symbol::symbol_name;
use embed_js::wasm::{has_export, patch_table_export};
use std::path::PathBuf;

use parity_wasm::elements::{
    ExportEntry, ExportSection, External, ImportEntry, ImportSection, Internal, Module, Section,
    TableSection, TableType,
};

fn import_section(names: &[(&str, &str)]) -> Section {
    Section::Import(ImportSection::with_entries(
        names
            .iter()
            .map(|&(module, field)| {
                ImportEntry::new(
                    module.to_string(),
                    field.to_string(),
                    External::Table(TableType::new(0, None)),
                )
            })
            .collect(),
    ))
}

fn table_section() -> Section {
    Section::Table(TableSection::with_entries(vec![TableType::new(1, None)]))
}

fn export_section(names: &[&str]) -> Section {
    Section::Export(ExportSection::with_entries(
        names.iter().map(|name| ExportEntry::new(name.to_string(), Internal::Table(0))).collect(),
    ))
}

fn table_exports(module: &Module) -> usize {
    module
        .export_section()
        .map(|s| s.entries().iter().filter(|e| e.field() == "__table").count())
        .unwrap_or(0)
}

#[test]
fn the_table_is_exported_once() {
    let mut module = Module::new(vec![table_section(), export_section(&["main"])]);
    assert_eq!(table_exports(&module), 0);
    patch_table_export(&mut module);
    assert_eq!(table_exports(&module), 1);
    let entries = module.export_section().unwrap().entries();
    assert_eq!(entries.len(), 2);
    assert_eq!(entries[0].field(), "main");
    assert_eq!(entries[1].field(), "__table");
    assert_eq!(*entries[1].internal(), Internal::Table(0));
    let once = module.clone();
    for _ in 0..5 {
        patch_table_export(&mut module);
        assert_eq!(module, once);
        assert_eq!(table_exports(&module), 1);
    }
}

#[test]
fn a_module_that_exports_the_table_is_left_alone() {
    let mut module = Module::new(vec![table_section(), export_section(&["__table", "main"])]);
    let before = module.clone();
    assert_eq!(table_exports(&module), 1);
    patch_table_export(&mut module);
    assert_eq!(module, before);
    patch_table_export(&mut module);
    assert_eq!(module, before);
    assert_eq!(table_exports(&module), 1);
}

#[test]
fn a_module_without_a_table_is_left_alone() {
    let mut module = Module::new(vec![export_section(&["main"])]);
    let before = module.clone();
    patch_table_export(&mut module);
    assert_eq!(module, before);
}

#[test]
fn a_module_without_an_export_section_gets_one_for_its_table() {
    let mut module = Module::new(vec![import_section(&[("env", "a")]), table_section()]);
    assert!(!has_export(&module, "__table"));
    patch_table_export(&mut module);
    assert_eq!(
        module,
        Module::new(vec![
            import_section(&[("env", "a")]),
            table_section(),
            export_section(&["__table"]),
        ])
    );
    assert!(has_export(&module, "__table"));
    let once = module.clone();
    for _ in 0..3 {
        patch_table_export(&mut module);
        assert_eq!(module, once);
        assert_eq!(table_exports(&module), 1);
    }
    let bytes = parity_wasm::serialize(module.clone()).unwrap();
    assert_eq!(parity_wasm::deserialize_buffer::<Module>(&bytes).unwrap(), module);
}

#[test]
fn a_module_without_table_and_export_section_is_left_alone() {
    let mut module = Module::new(vec![import_section(&[("env", "a")])]);
    let before = module.clone();
    patch_table_export(&mut module);
    assert_eq!(module, before);
    assert!(module.export_section().is_none());
}

#[test]
fn link_step_of_a_module_without_an_export_section() {
    let units = vec![Manifest { snippets: vec![answer()], prelude: String::new() }];
    let module = Module::new(vec![
        import_section(&[("env", &symbol_name(&answer()))]),
        table_section(),
    ]);
    let wasm = parity_wasm::serialize(module).unwrap();
    let data = postprocess_crate(&units, PathBuf::from("m.wasm"), &wasm).unwrap();
    let shipped: Module = parity_wasm::deserialize_buffer(&data.wasm).unwrap();
    assert_eq!(table_exports(&shipped), 1);
    assert_eq!(shipped.export_section().unwrap().entries().len(), 1);
    assert_eq!(data.imports, format!("{}:function(){{return 42;}}", symbol_name(&answer())));
    let again = postprocess_crate(&units, PathBuf::from("m.wasm"), &data.wasm).unwrap();
    assert_eq!(again.wasm, data.wasm);
}

#[test]
fn exports_are_found_by_name() {
    let module = Module::new(vec![
        import_section(&[("env", "a"), ("other", "b"), ("env", "c")]),
        table_section(),
        export_section(&["x", "y"]),
    ]);
    assert!(has_export(&module, "x"));
    assert!(has_export(&module, "y"));
    assert!(!has_export(&module, "z"));
    assert!(!has_export(&module, "a"));
    assert!(!has_export(&module, ""));
    assert!(!has_export(&Module::new(vec![]), "x"));
    assert!(!has_export(&Module::new(vec![export_section(&[])]), "x"));
    assert!(has_export(&Module::new(vec![export_section(&[""])]), ""));
}

#[test]
fn the_export_is_that_of_the_first_table() {
    let mut module = Module::new(vec![table_section(), export_section(&[])]);
    patch_table_export(&mut module);
    let entries = module.export_section().unwrap().entries();
    assert_eq!(entries.len(), 1);
    assert_eq!(entries[0].field(), "__table");
    assert_eq!(*entries[0].internal(), Internal::Table(0));
    assert!(has_export(&module, "__table"));
}

#[test]
fn a_module_that_was_read_is_linked() {
    let units = vec![Manifest { snippets: vec![answer(), shout()], prelude: "p".to_string() }];
    let module = Module::new(vec![
        import_section(&[("env", &symbol_name(&answer())), ("x", &symbol_name(&shout()))]),
        table_section(),
        export_section(&["main"]),
    ]);
    let data = link_module(merge_manifests(&units).unwrap(), PathBuf::from("m.wasm"), module.clone())
            .unwrap();
    assert_eq!(data.wasm_path, PathBuf::from("m.wasm"));
    assert_eq!(data.included, "p");
    assert_eq!(data.imports, format!("{}:function(){{return 42;}}", symbol_name(&answer())));
    let mut patched = module;
    patch_table_export(&mut patched);
    assert_eq!(&data.wasm[0..8], &[0x00, 0x61, 0x73, 0x6d, 1, 0, 0, 0]);
    assert_eq!(data.wasm, parity_wasm::serialize(patched).unwrap());

    let bare = link_module(merge_manifests(&units).unwrap(), PathBuf::new(), Module::new(vec![]))
        .unwrap();
    assert_eq!(bare.imports, "");
    assert_eq!(bare.wasm, vec![0x00, 0x61, 0x73, 0x6d, 1, 0, 0, 0]);
}

fn answer() -> JsMac {
    JsMac {
        args: vec![],
        ret: Some(WasmPrimitiveType::I32),
        body: Some("return 42;".to_string()),
    }
}

fn shout() -> JsMac {
    JsMac {
        args: vec![JsMacArg::Ref(vec![false], 0, "text".to_string())],
        ret: None,
        body: Some("alert(text);".to_string()),
    }
}

fn unused() -> JsMac {
    JsMac { args: vec![], ret: None, body: Some("never();".to_string()) }
}

#[test]
fn link_step() {
    let units = vec![
        Manifest { snippets: vec![answer(), unused()], prelude: "var a;\n".to_string() },
        Manifest { snippets: vec![shout(), answer()], prelude: "var b;\n".to_string() },
    ];
    let module = Module::new(vec![
        import_section(&[
            ("env", &symbol_name(&shout())),
            ("env", "memory"),
            ("host", &symbol_name(&unused())),
            ("env", &symbol_name(&answer())),
        ]),
        table_section(),
        export_section(&["main"]),
    ]);
    let wasm = parity_wasm::serialize(module.clone()).unwrap();
    let data = postprocess_crate(&units, PathBuf::from("target/out.wasm"), &wasm).unwrap();
    assert_eq!(data.wasm_path, PathBuf::from("target/out.wasm"));
    assert_eq!(data.included, "var a;\n\nvar b;\n");
    assert_eq!(
        data.imports,
        format!(
            "{}:function(text){{alert(text);}},\n{}:function(){{return 42;}}",
            symbol_name(&shout()),
            symbol_name(&answer())
        )
    );
    assert!(!data.imports.contains("never"));
    assert!(!data.imports.contains(&symbol_name(&unused())));
    let shipped: Module = parity_wasm::deserialize_buffer(&data.wasm).unwrap();
    assert_eq!(table_exports(&shipped), 1);
    let mut expected = module;
    patch_table_export(&mut expected);
    assert_eq!(shipped, expected);

    let again = postprocess_crate(&units, PathBuf::from("target/out.wasm"), &data.wasm).unwrap();
    assert_eq!(again.wasm, data.wasm);
    assert_eq!(again.imports, data.imports);
}

#[test]
fn link_step_without_a_module() {
    let units = vec![Manifest { snippets: vec![answer()], prelude: String::new() }];
    let module = Module::new(vec![table_section(), export_section(&["x"])]);
    let wasm = parity_wasm::serialize(module).unwrap();
    assert!(postprocess_crate(&units, PathBuf::from("x"), &wasm).is_ok());
    for bytes in [&b"junk"[..], &[][..], &wasm[..wasm.len() - 1], &wasm[1..]] {
        match postprocess_crate(&units, PathBuf::from("x"), bytes) {
            Err(PostProcessError::Read(_)) => {}
            other => panic!("{:?}", other),
        }
    }
}

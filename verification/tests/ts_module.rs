use moxie::ts_module::{DeclKind, Entry, ModuleItem, TsModule, TypescriptError};

#[test]
fn blank_module_declares_nothing() {
    let module = TsModule::blank();
    assert!(!module.declares(DeclKind::Class, 1));
    assert!(!module.declares(DeclKind::Variable, 0));
    assert!(!module.has_module(1));
    assert!(!module.holds_at(&vec![], Entry::Module(1)));
    assert!(!module.holds_at(&vec![1], Entry::Decl(DeclKind::Class, 1)));
}

#[test]
fn add_decl_records_kind_and_name() {
    let mut module = TsModule::blank();
    module.add_decl(DeclKind::Class, 1);
    module.add_decl(DeclKind::Class, 1);
    module.add_decl(DeclKind::Function, 2);
    assert!(module.declares(DeclKind::Class, 1));
    assert!(module.declares(DeclKind::Function, 2));
    assert!(!module.declares(DeclKind::Function, 1));
    assert!(!module.declares(DeclKind::Interface, 1));
    assert!(!module.has_module(1));
}

#[test]
fn add_var_records_every_name() {
    let mut module = TsModule::blank();
    module.add_var(&vec![4, 5, 4]);
    assert!(module.declares(DeclKind::Variable, 4));
    assert!(module.declares(DeclKind::Variable, 5));
    assert!(!module.declares(DeclKind::Variable, 6));
    assert!(!module.declares(DeclKind::Alias, 4));
    module.add_var(&vec![]);
    assert!(!module.declares(DeclKind::Variable, 6));
}

#[test]
fn add_ts_module_reuses_the_nested_module() {
    let mut module = TsModule::blank();
    module.add_ts_module(7, &vec![ModuleItem::Decl(DeclKind::Enum, 1)]);
    module.add_ts_module(7, &vec![ModuleItem::Decl(DeclKind::Alias, 2)]);
    module.add_ts_module(8, &vec![]);
    assert!(module.has_module(7));
    assert!(module.has_module(8));
    assert!(!module.has_module(1));
    assert!(!module.declares(DeclKind::Enum, 1));
    assert!(module.holds_at(&vec![7], Entry::Decl(DeclKind::Enum, 1)));
    assert!(module.holds_at(&vec![7], Entry::Decl(DeclKind::Alias, 2)));
    assert!(!module.holds_at(&vec![7], Entry::Module(7)));
    assert!(!module.holds_at(&vec![8], Entry::Decl(DeclKind::Enum, 1)));
    assert!(!module.holds_at(&vec![9], Entry::Decl(DeclKind::Enum, 1)));
}

#[test]
fn add_module_contents_walks_the_tree() {
    let items = vec![
        ModuleItem::Decl(DeclKind::Class, 1),
        ModuleItem::Var(vec![2, 3]),
        ModuleItem::Module(
            10,
            vec![
                ModuleItem::Decl(DeclKind::Interface, 4),
                ModuleItem::Module(11, vec![ModuleItem::Decl(DeclKind::Function, 5)]),
            ],
        ),
        ModuleItem::Module(10, vec![ModuleItem::Var(vec![6])]),
    ];
    let mut module = TsModule::blank();
    module.add_module_contents(&items);
    assert!(module.declares(DeclKind::Class, 1));
    assert!(module.declares(DeclKind::Variable, 2));
    assert!(module.declares(DeclKind::Variable, 3));
    assert!(!module.declares(DeclKind::Interface, 4));
    assert!(!module.declares(DeclKind::Variable, 6));
    assert!(module.holds_at(&vec![], Entry::Module(10)));
    assert!(module.holds_at(&vec![10], Entry::Decl(DeclKind::Interface, 4)));
    assert!(module.holds_at(&vec![10], Entry::Decl(DeclKind::Variable, 6)));
    assert!(!module.holds_at(&vec![10], Entry::Decl(DeclKind::Function, 5)));
    assert!(module.holds_at(&vec![10], Entry::Module(11)));
    assert!(module.holds_at(&vec![10, 11], Entry::Decl(DeclKind::Function, 5)));
    assert!(!module.holds_at(&vec![11], Entry::Decl(DeclKind::Function, 5)));
    assert!(!module.holds_at(&vec![], Entry::Module(11)));
    assert!(module.holds_from(&vec![99, 10, 11], 1, Entry::Decl(DeclKind::Function, 5)));
}

#[test]
fn add_item_collects_one_item() {
    let mut module = TsModule::blank();
    module.add_item(&ModuleItem::Decl(DeclKind::Alias, 9));
    module.add_item(&ModuleItem::Module(3, vec![]));
    assert!(module.declares(DeclKind::Alias, 9));
    assert!(module.has_module(3));
}

#[test]
fn import_is_not_supported() {
    let mut module = TsModule::blank();
    assert_eq!(module.import_with_wasm_bindgen().err(), Some(TypescriptError::Unsupported));
    module.add_decl(DeclKind::Enum, 3);
    assert_eq!(module.import_with_wasm_bindgen().err(), Some(TypescriptError::Unsupported));
}

#[test]
fn from_items_collects_a_body() {
    let module = TsModule::from_items(&vec![
        ModuleItem::Decl(DeclKind::Function, 1),
        ModuleItem::Module(2, vec![ModuleItem::Decl(DeclKind::Class, 3)]),
    ]);
    assert!(module.declares(DeclKind::Function, 1));
    assert!(module.holds_at(&vec![2], Entry::Decl(DeclKind::Class, 3)));
    assert!(!module.holds_at(&vec![], Entry::Decl(DeclKind::Class, 3)));
    assert!(!TsModule::from_items(&vec![]).has_module(2));
}

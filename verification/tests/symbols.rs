use minic::symbols::{Class, Memory, Symbol, SymbolTable, Type, TypeBase};

fn var(name: &str, depth: usize) -> Symbol {
    Symbol::new(
        String::from(name),
        Class::Var,
        Some(Memory::Local),
        Some(Type::new(TypeBase::Int, -1)),
        depth,
        None,
        None,
    )
}

fn names(table: &SymbolTable) -> Vec<&str> {
    table.table.iter().map(|s| s.name.as_str()).collect()
}

#[test]
fn symbol_new_keeps_its_parts() {
    let s = Symbol::new(
        String::from("f"),
        Class::Func,
        None,
        Some(Type::new(TypeBase::Void, -1)),
        2,
        Some(SymbolTable::new()),
        None,
    );
    assert_eq!(s.name, "f");
    assert_eq!(s.class, Class::Func);
    assert_eq!(s.memory, None);
    assert_eq!(s.ty, Some(Type::new(TypeBase::Void, -1)));
    assert_eq!(s.depth, 2);
    assert_eq!(s.args, Some(SymbolTable::new()));
    assert_eq!(s.members, None);
}

#[test]
fn new_table_is_empty() {
    let mut t = SymbolTable::new();
    assert_eq!(t.len(), 0);
    assert!(t.find_symbol("x").is_none());
    assert!(t.find_symbol_mut("x").is_none());
    assert_eq!(t.find_symbol_index("x"), None);
    assert_eq!(t.find_last_index("x"), None);
}

#[test]
fn add_symbol_appends_and_hands_out_the_record() {
    let mut t = SymbolTable::new();
    t.add_symbol(var("a", 0));
    let b = t.add_symbol(var("b", 0));
    assert_eq!(b.name, "b");
    b.depth = 7;
    assert_eq!(names(&t), vec!["a", "b"]);
    assert_eq!(t.table[1].depth, 7);
}

#[test]
fn lookup_finds_the_most_recent() {
    let mut t = SymbolTable::new();
    t.add_symbol(var("x", 0));
    t.add_symbol(var("y", 0));
    t.add_symbol(var("x", 1));
    assert_eq!(t.find_symbol("x").unwrap().depth, 1);
    assert_eq!(t.find_last_index("x"), Some(2));
    assert_eq!(t.find_symbol_index("x"), Some(0));
    assert_eq!(t.find_symbol("y").unwrap().depth, 0);
    assert!(t.find_symbol("z").is_none());
    t.find_symbol_mut("x").unwrap().depth = 9;
    assert_eq!(t.table[0].depth, 0);
    assert_eq!(t.table[2].depth, 9);
}

#[test]
fn shadowing_ends_with_the_scope() {
    let mut t = SymbolTable::new();
    t.add_symbol(var("x", 0));
    let mark = t.len();
    t.add_symbol(var("x", 1));
    t.add_symbol(var("tmp", 1));
    assert_eq!(t.find_symbol("x").unwrap().depth, 1);
    t.truncate(mark);
    assert_eq!(t.find_symbol("x").unwrap().depth, 0);
    assert!(t.find_symbol("tmp").is_none());
    // a table that is already shorter stays as it is
    t.truncate(5);
    assert_eq!(names(&t), vec!["x"]);
}

#[test]
fn delete_symbol_after_cuts_behind_the_oldest_of_that_name() {
    let mut t = SymbolTable::new();
    for (name, depth) in [("a", 0), ("f", 0), ("p", 1), ("f", 2), ("q", 2)] {
        t.add_symbol(var(name, depth));
    }
    t.delete_symbol_after(&var("f", 0));
    assert_eq!(names(&t), vec!["a", "f"]);
    t.delete_symbol_after(&var("missing", 0));
    assert_eq!(names(&t), vec!["a", "f"]);
    t.delete_symbol_after(&var("a", 0));
    assert_eq!(names(&t), vec!["a"]);
}

#[test]
fn members_and_parameters() {
    let mut t = SymbolTable::new();
    t.push(Symbol::new(
        String::from("S"),
        Class::Struct,
        None,
        None,
        0,
        None,
        Some(SymbolTable::new()),
    ));
    t.push(Symbol::new(
        String::from("f"),
        Class::Func,
        None,
        Some(Type::new(TypeBase::Int, -1)),
        0,
        Some(SymbolTable::new()),
        None,
    ));
    assert_eq!(t.member_count(0), Some(0));
    assert_eq!(t.member_count(1), None);
    assert_eq!(t.member_count(2), None);
    assert!(t.takes_args(1) && !t.takes_args(0) && !t.takes_args(9));
    t.add_member(0, var("m", 0));
    t.add_member(0, var("n", 0));
    t.add_arg(1, var("a", 1));
    assert_eq!(t.member_count(0), Some(2));
    assert!(t.has_member_named(0, "n") && !t.has_member_named(0, "a"));
    assert_eq!(names(t.members_of(0).unwrap()), vec!["m", "n"]);
    assert_eq!(names(t.args_of(1).unwrap()), vec!["a"]);
    assert!(t.args_of(0).is_none() && t.members_of(1).is_none());
    t.truncate_members(0, 1);
    assert_eq!(names(t.members_of(0).unwrap()), vec!["m"]);
    assert_eq!(t.class_of(0), Class::Struct);
    assert_eq!(t.type_of(1), Some(Type::new(TypeBase::Int, -1)));
    assert_eq!(t.depth_of(1), 0);
}

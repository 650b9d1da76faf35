use hostfetch::fields::{assemble_fields, Field};

fn field(priority: u8, text: &str) -> Field {
    Field { priority, text: text.to_string() }
}

#[test]
fn hidden_fields_are_dropped_and_the_rest_sorted() {
    // OS at order two, the banner host at one, the kernel hidden.
    let fields = vec![field(2, "OS-line"), field(1, "Host-line"), field(0, "Kernel-line")];
    let out = assemble_fields(&fields);
    assert_eq!(out, vec!["Host-line".to_string(), "OS-line".to_string()]);
}

#[test]
fn output_length_counts_the_shown_fields() {
    let fields = vec![
        field(0, "a"),
        field(3, "b"),
        field(0, "c"),
        field(1, "d"),
        field(2, "e"),
    ];
    let out = assemble_fields(&fields);
    assert_eq!(out.len(), 3);
    assert_eq!(out, vec!["d".to_string(), "e".to_string(), "b".to_string()]);
}

#[test]
fn equal_priorities_keep_their_input_order() {
    let fields = vec![
        field(5, "first"),
        field(5, "second"),
        field(1, "lead"),
        field(5, "third"),
    ];
    let out = assemble_fields(&fields);
    assert_eq!(
        out,
        vec![
            "lead".to_string(),
            "first".to_string(),
            "second".to_string(),
            "third".to_string()
        ]
    );
}

#[test]
fn empty_input_assembles_to_nothing() {
    let fields: Vec<Field> = Vec::new();
    let out = assemble_fields(&fields);
    assert_eq!(out.len(), 0);
    let hidden = vec![field(0, "x"), field(0, "y")];
    assert_eq!(assemble_fields(&hidden).len(), 0);
}

#[test]
fn priorities_sort_ascending() {
    let fields = vec![field(200, "z"), field(10, "m"), field(3, "a")];
    let out = assemble_fields(&fields);
    assert_eq!(out, vec!["a".to_string(), "m".to_string(), "z".to_string()]);
}

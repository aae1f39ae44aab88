use rustex::content::{ContentError, Core};
use rustex::equations::Equation;
use rustex::file_table::FileTable;
use rustex::graphics::Scale;

fn rendered(node: &Core) -> String {
    node.render(&FileTable::new()).unwrap()
}

#[test]
fn simple_write_text() {
    let t1 = Core::text("Quentin");
    assert_eq!(rendered(&t1), "Quentin\n");
}

#[test]
fn test_enumerate() {
    let mut enumerate = Core::bloc("enumerate");
    for i in 0..5 {
        enumerate.add(Core::item(Core::text(&format!("Blabla {}", i)))).unwrap();
    }
    assert_eq!(
        rendered(&enumerate),
        "\\begin{enumerate}\n\\item Blabla 0\n\\item Blabla 1\n\\item Blabla 2\n\\item Blabla 3\n\\item Blabla 4\n\\end{enumerate}\n"
    );
}

#[test]
fn test_tabular_one_dim() {
    let mut vec = Vec::new();
    for i in 0..5 {
        vec.push(Core::text(&i.to_string()));
    }
    let tab = Core::tab(vec);
    assert_eq!(
        rendered(&tab),
        "\\begin{tabular}{ccccc}\n0\n& 1\n& 2\n& 3\n& 4\n\\\\\n\\end{tabular}\n"
    );
}

#[test]
fn test_tabular_two_dims() {
    let mut vec_2d = Vec::new();
    for j in 0..6 {
        let mut vec = Vec::new();
        for i in 0..5 {
            vec.push(Core::text(&(i + j).to_string()));
        }
        vec_2d.push(vec);
    }
    let tab = Core::tab(vec_2d);
    let mut expected = String::from("\\begin{tabular}{ccccc}\n");
    for j in 0..6 {
        for i in 0..5 {
            if i > 0 {
                expected.push_str("& ");
            }
            expected.push_str(&format!("{}\n", i + j));
        }
        expected.push_str("\\\\\n");
    }
    expected.push_str("\\end{tabular}\n");
    assert_eq!(rendered(&tab), expected);
}

#[test]
fn test_math_mode_simple() {
    let m = Core::math("1 + 2 = 3");
    assert_eq!(rendered(&m), "$1 + 2 = 3$\n");
}

#[test]
fn test_math_mode_symbol() {
    let m = Core::math(r"1 \leq 2 = 3");
    assert_eq!(rendered(&m), "$1 \\leq 2 = 3$\n");
}

#[test]
fn test_math_mode_in_text() {
    let mut p = Core::paragraph("");
    p.add(Core::text("This is the most interesting equation:")).unwrap();
    let m = Core::math("1 + 2 = 3");
    p.add(m).unwrap();
    assert_eq!(
        rendered(&p),
        "\\paragraph{}\nThis is the most interesting equation:\n$1 + 2 = 3$\n"
    );
}

#[test]
fn test_include_graphics() {
    let im = Core::graphic("rust_logo.jpg", "This is the Rust logo!");
    let out = rendered(&im);
    assert_eq!(
        out,
        "\\begin{figure}[h]\n\\centering\n\\includegraphics{rust_logo.jpg}\n\\caption{This is the Rust logo!}\n\\end{figure}\n"
    );
    assert!(!out.contains("scale"));
}

#[test]
fn test_include_graphics_scale() {
    let mut im = Core::graphic("rust_logo.jpg", "This is the Rust logo!");
    im.set_scale(Scale { mantissa: 5, exponent: 1 });
    let out = rendered(&im);
    assert_eq!(
        out,
        "\\begin{figure}[h]\n\\centering\n\\includegraphics[scale=0.5]{rust_logo.jpg}\n\\caption{This is the Rust logo!}\n\\end{figure}\n"
    );
    assert_eq!(out.matches("scale=").count(), 1);
}

#[test]
fn test_include_code() {
    let code = Core::code("../../test.c", "C");
    assert_eq!(rendered(&code), "\\lstinputlisting[language=C]{../../test.c}\n");
}

#[test]
fn test_include_text() {
    let text = Core::text_from_file("text.txt");
    let mut files = FileTable::new();
    files.insert("text.txt".to_string(), "Some text read from a file.".to_string());
    assert_eq!(text.render(&files).unwrap(), "Some text read from a file.\n");
}

#[test]
fn itemize_of_countries() {
    let mut enume = Core::bloc("itemize");
    for country in ["France", "UK", "Germany", "Italy"] {
        enume.add(Core::item(Core::text(country))).unwrap();
    }
    assert_eq!(
        rendered(&enume),
        "\\begin{itemize}\n\\item France\n\\item UK\n\\item Germany\n\\item Italy\n\\end{itemize}\n"
    );
}

#[test]
fn numeric_grid_of_two_rows() {
    let grid = vec![
        vec![Core::text("0"), Core::text("1"), Core::text("2")],
        vec![Core::text("1"), Core::text("2"), Core::text("3")],
    ];
    let out = rendered(&Core::tab(grid));
    assert_eq!(
        out,
        "\\begin{tabular}{ccc}\n0\n& 1\n& 2\n\\\\\n1\n& 2\n& 3\n\\\\\n\\end{tabular}\n"
    );
    assert_eq!(out.matches("\\\\\n").count(), 2);
}

#[test]
fn missing_file_fails_the_enclosing_container() {
    let mut bloc = Core::bloc("quote");
    bloc.add(Core::text("before")).unwrap();
    bloc.add(Core::text_from_file("no/such/file.txt")).unwrap();
    bloc.add(Core::text("after")).unwrap();
    let mut sec = Core::section("Quoted");
    sec.add(bloc).unwrap();
    match sec.render(&FileTable::new()) {
        Err(ContentError::ReadFailure(p)) => assert_eq!(p, "no/such/file.txt"),
        other => panic!("unexpected result {:?}", other.map(|s| s.len())),
    }
}

#[test]
fn adding_to_leaves_is_refused() {
    let mut leaves = vec![
        Core::text("a"),
        Core::math("x"),
        Core::graphic("a.png", "A"),
        Core::code("a.c", "C"),
        Core::item(Core::text("b")),
        Core::tab(vec![Core::text("c")]),
        Core::equation(Equation::new("e = mc^2")),
        Core::text_from_file("f.txt"),
    ];
    let mut files = FileTable::new();
    files.insert("f.txt".to_string(), "F".to_string());
    for leaf in leaves.iter_mut() {
        let before = leaf.render(&files).unwrap();
        let kind = leaf.kind();
        match leaf.add(Core::text("child")) {
            Err(ContentError::InvalidOperation(k)) => assert_eq!(k, kind),
            _ => panic!("adding to a leaf succeeded"),
        }
        assert_eq!(leaf.render(&files).unwrap(), before);
    }
}

#[test]
fn rendering_twice_is_identical() {
    let mut sec = Core::section("Intro");
    sec.add(Core::text("one")).unwrap();
    let mut b = Core::bloc("center");
    b.add(Core::text("two")).unwrap();
    sec.add(b).unwrap();
    let first = rendered(&sec);
    let second = rendered(&sec);
    assert_eq!(first, second);
    assert_eq!(first, "\\section{Intro}\none\n\\begin{center}\ntwo\n\\end{center}\n");
}

#[test]
fn flat_cells_match_a_single_row() {
    let flat = Core::tab(vec![Core::text("a"), Core::text("b")]);
    let nested = Core::tab(vec![vec![Core::text("a"), Core::text("b")]]);
    assert_eq!(rendered(&flat), rendered(&nested));
}

#[test]
fn jagged_rows_are_not_padded() {
    let grid = vec![vec![Core::text("a")], vec![Core::text("b"), Core::text("c"), Core::text("d")]];
    assert_eq!(
        rendered(&Core::tab(grid)),
        "\\begin{tabular}{ccc}\na\n\\\\\nb\n& c\n& d\n\\\\\n\\end{tabular}\n"
    );
}

#[test]
fn empty_table_declares_one_column() {
    let empty: Vec<Vec<Core>> = Vec::new();
    assert_eq!(rendered(&Core::tab(empty)), "\\begin{tabular}{c}\n\\end{tabular}\n");
    let no_cells: Vec<Core> = Vec::new();
    assert_eq!(rendered(&Core::tab(no_cells)), "\\begin{tabular}{c}\n\\\\\n\\end{tabular}\n");
}

#[test]
fn children_render_in_order_of_addition() {
    let mut sec = Core::subsection("S");
    for w in ["x", "y", "z"] {
        sec.add(Core::text(w)).unwrap();
    }
    assert_eq!(rendered(&sec), "\\subsection{S}\nx\ny\nz\n");
}

#[test]
fn heading_levels() {
    assert_eq!(rendered(&Core::section("A")), "\\section{A}\n");
    assert_eq!(rendered(&Core::subsection("B")), "\\subsection{B}\n");
    assert_eq!(rendered(&Core::subsubsection("C")), "\\subsubsection{C}\n");
    assert_eq!(rendered(&Core::paragraph("D")), "\\paragraph{D}\n");
}

#[test]
fn equation_markup() {
    let e = Core::equation(Equation::new("a^2 + b^2 = c^2"));
    assert_eq!(rendered(&e), "\\begin{equation}\na^2 + b^2 = c^2\n\\end{equation}\n");
}

#[test]
fn set_scale_ignores_other_kinds() {
    let mut t = Core::text("plain");
    t.set_scale(Scale { mantissa: 2, exponent: 0 });
    assert_eq!(rendered(&t), "plain\n");
}

#[test]
fn first_file_entry_wins() {
    let mut files = FileTable::new();
    files.insert("a".to_string(), "first".to_string());
    files.insert("a".to_string(), "second".to_string());
    assert_eq!(Core::text_from_file("a").render(&files).unwrap(), "first\n");
}

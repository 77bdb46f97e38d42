use hella::formatter::print::Formatter;
use hella::formatter::{format_source, format_source_with_options, is_formatted, FormatOptions};
use hella::source::Source;
use hella::token::Span;

fn fmt(src: &str) -> String {
    format_source(src).expect("format failed")
}

#[test]
fn idempotent_simple() {
    let src = "int   main()  do\nreturn  1\nend\n";
    let once = fmt(src);
    let twice = fmt(&once);
    assert_eq!(once, twice);
    assert_eq!(once, "int main() do\n    return 1\nend\n");
}

#[test]
fn binary_spacing() {
    let out = fmt("int main() do\nint x=1+2\nreturn x\nend\n");
    assert!(out.contains("1 + 2"), "got: {out}");
}

#[test]
fn var_alignment() {
    let src = "int main() do\nstring name = \"a\"\nint age = 1\nbool active = true\nreturn 1\nend\n";
    let out = fmt(src);
    assert!(out.contains("string name"), "got: {out}");
    // group of 3 → padded
    assert!(out.contains("int    age"), "got: {out}");
    let twice = fmt(&out);
    assert_eq!(out, twice);
}

#[test]
fn imports_two_blanks() {
    let src = "import foo\nimport bar\nconst int X = 1\n";
    let out = fmt(src);
    assert!(out.contains("import foo\nimport bar\n\n\nconst int X = 1"), "got: {out:?}");
}

#[test]
fn class_ordering() {
    let src = "class User has\npublic void save() do\nreturn\nend\nstring name\nUser(string name) initialize\n~User() do\nreturn\nend\nend\n";
    let out = fmt(src);
    let f = out.find("string name").unwrap();
    let c = out.find("initialize").unwrap();
    let d = out.find("~User").unwrap();
    let m = out.find("save").unwrap();
    assert!(f < c && c < d && d < m, "got: {out}");
}

#[test]
fn comments_preserved() {
    let src = "// header\nint main() do\n// inner\nreturn 1 // trailing\nend\n";
    let out = fmt(src);
    assert!(out.contains("// header"), "got: {out}");
    assert!(out.contains("// inner"), "got: {out}");
    assert!(out.contains("// trailing"), "got: {out}");
    assert_eq!(out, fmt(&out));
}

#[test]
fn call_wrapping_idempotent() {
    let src = "int main() do\nresult = create_user(name, age, active, extra_long_argument_name_here, another_long_argument, more_args_here_ok)\nreturn 1\nend\n";
    let out = fmt(src);
    let twice = fmt(&out);
    assert_eq!(out, twice);
}

#[test]
fn unknown_token_is_reported_with_its_place() {
    let e = format_source("int x = 1\n\u{a7}\n").unwrap_err();
    assert_eq!(e.message, "unexpected token `\u{a7}`");
    let span = e.span.unwrap();
    assert_eq!((span.start, span.end), (10, 12));
}

#[test]
fn misplaced_token_is_reported_with_its_place() {
    let e = format_source("int main() do\nreturn )\nend\n").unwrap_err();
    assert_eq!(e.message, "unexpected token `)`");
    let span = e.span.unwrap();
    assert_eq!((span.start, span.end), (21, 22));
}

#[test]
fn missing_end_is_reported() {
    let e = format_source("int main() do\nreturn 1\n").unwrap_err();
    assert_eq!(e.message, "unexpected end of file");
    let span = e.span.unwrap();
    assert_eq!((span.start, span.end), (23, 23));
}

#[test]
fn canonical_text_is_recognised() {
    assert!(is_formatted("int main() do\n    return 1\nend\n").unwrap());
    assert!(is_formatted("int main() do\r\n    return 1\r\nend").unwrap());
    assert!(is_formatted("int main() do\n    return 1\nend\n\n\n").unwrap());
    assert!(!is_formatted("int main() do\n  return 1\nend\n").unwrap());
    assert!(is_formatted("do do").is_err());
}

#[test]
fn other_widths() {
    let o = FormatOptions { max_width: 100, indent_width: 2 };
    let out = format_source_with_options("int main() do\nreturn 1\nend\n", o).unwrap();
    assert_eq!(out, "int main() do\n  return 1\nend\n");
}

#[test]
fn many_constructs_are_stable() {
    let src = "import std::io::{print, read}\n\n@inline(1, level: 2)\npublic T pick<T>(ref int a, ...T rest) do\nif a > 1 and not (a is 3) do\nwhile a < 10 do\na += 1\nend\nend\nelse if a is 2 do\nfor i in 0..10 do\nprint(\"v {i} w\")\nend\nend\nelse do\nouter: loop do\nbreak outer\nend\nend\nint: string m = has\n1: \"a\"\n2: \"b\"\nend\nx = match a do\n1 | 2 -> 5\n.some(v) if v > 1 -> 2\n_ -> 0\nend\ndefer print(\"d\")\nassert a > 1, \"m\"\nreturn a ? 1 : 2\nend\n\nenum Color has\nred = 1\ngreen(int v)\nend\n\nstruct P<T> has\nint x = 1\nT? y\nend\n";
    match format_source(src) {
        Ok(out) => assert_eq!(out, fmt(&out)),
        Err(e) => panic!("{} at {:?} of {}", e.message, e.span, src.len()),
    }
}

#[test]
fn gaps_are_at_most_two_lines() {
    let out = fmt("import a\n\n\n\n\n\n\nint f() do\nreturn 1\n\n\n\n\n\nend\n\n\n\n\n// last\n\n\n\n");
    assert!(!out.contains("\n\n\n\n"));
    assert!(out.ends_with('\n'));
    assert!(!out.ends_with("\n\n"));
}

#[test]
fn every_comment_is_kept() {
    let src = "// head\nimport a // one\n/* two */\nclass P has\n    // three\n    void m() do // four\n        f(1, /* five */ 2)\n        int x = 1 // six\n        /* seven\n           more */\n    end // eight\n    /* nine */ int y = 2 // ten\n    // eleven\n    P(int y) initialize // twelve\n    // thirteen\nend // fourteen\nstruct Q has\n    int a // fifteen\nend\n// sixteen\n";
    let out = fmt(src);
    for word in [
        "// head", "// one", "/* two */", "// three", "// four", "/* five */", "// six", "/* seven", "more */",
        "// eight", "/* nine */", "// ten", "// eleven", "// twelve", "// thirteen", "// fourteen", "// fifteen",
        "// sixteen",
    ] {
        assert!(out.contains(word), "{word} is gone from:\n{out}");
    }
}

#[test]
fn block_closures_are_expanded() {
    let out = fmt("int main() do\n    int g = |int x| do\n return x + 1\n end\n    return 0\nend\n");
    assert!(out.contains("int g = |int x| do\n        return x + 1\n    end\n"), "{out}");
    let out = fmt("int main() do\n    return f(a, |int x| do\n g(x)\n // in\n return x\n end)\nend\n");
    assert!(
        out.contains("f(\n        a,\n        |int x| do\n            g(x)\n            // in\n            return x\n        end\n    )\n"),
        "{out}"
    );
    let out = fmt("int main() do\n if f(|int x| do\n return x\n end) do\n return 1\n end\nend\n");
    assert!(out.contains("if f(|int x| do\n        return x\n    end) do\n"), "{out}");
    let out = fmt("int main() do\n x = match a do\n1 -> do\nreturn 2\nend\nend\nend\n");
    assert!(out.contains("return 2\n"), "{out}");
    assert!(!out.contains("..."));
}

#[test]
fn comment_line_is_no_blank_line() {
    let out = fmt("struct P has\nint x = 1\n/* c */ string y\nend\n");
    assert_eq!(out, "struct P has\n    int    x = 1\n    /* c */\n    string y\nend\n");
    let src = Source::new("a\n// c\nb\n\nc\n \t\nd");
    let f = Formatter::new(&src, vec![], FormatOptions::default());
    assert!(!f.has_blank_between(1, 7));
    assert!(f.has_blank_between(8, 10));
    assert!(f.has_blank_between(11, 15));
    assert!(!f.has_blank_between(10, 8));
}

#[test]
fn omitted_type_is_told_from_longer_words() {
    let src = Source::new("User u = has name = 1 end");
    let f = Formatter::new(&src, vec![], FormatOptions::default());
    assert!(f.init_omits_type(Span { start: 0, end: src.size() }));
    for s in ["User u = hash(1)", "User u = has_it", "User u = has1", "User u = hasé"] {
        let src = Source::new(s);
        let f = Formatter::new(&src, vec![], FormatOptions::default());
        assert!(!f.init_omits_type(Span { start: 0, end: src.size() }), "{s}");
    }
}

const SOURCES: &[&str] = &[
        "int main() do\n    int g = |int x| do\n return x + 1\n end\n    return 0\nend\n",
        "int main() do\n x = match a do\n1 -> do\nreturn 2\nend\nend\nend\n",
        "int main() do\n if f(|int x| do\n return x\n end) do\n return 1\n end\nend\n",
        "int main() do\n int y = 1 + g(|int x| do\n return x\n end)\nend\n",
        "int main() do\n defer f(|int x| do\n return x\n end)\nend\n",
        "int main() do\n int[] y = [|int x| do\n return x\n end, 2]\nend\n",
        "int main() do\n    return f(a, |int x| do\n        g(x)\n        // in\n        return x\n    end, b)\nend\n",
        "struct P has\nint x = 1\n/* c */ string y\nend\n",
        "struct P has\nint x = 1\n// c\nstring y\n\nint zz\nend\n",
        "int main() do\nint a = 1\n// c\nint bb = 2\n\nint c = 3 // d\nend\n",
        "int main() do\nint a = 1 /* x */ /* y */\nreturn a // z\nend // after\n",
        "// a\n\n\n\n\n// b\nimport x\nimport y // c\n// d\nint main() do\nend\n",
        "int main() do\n    f(1, /* five */ 2)\n    g()\nend\n",
        "int main() do\n    x = f(/* a */ 1) // b\n    /* c */ g()\nend\n",
        "class P has\n    // three\n    void m() do // four\n        f(1)\n    end // eight\n    /* nine */ int y = 2 // ten\n    // eleven\n    P(int y) initialize // twelve\n    // thirteen\nend // fourteen\n",
        "class P has\n    void m() do\n        return\n    end\n    int y = 2\n    ~P() do\n  f()\n end\n int q get do\n return 1\n end\n set(int v) do\n this.y = v\n end\n static operator +(P a, P b) do\n return 1\n end\n convert P to int do\n return 1\n end\nend\n",
        "enum C has\nA(int x) // a\n// b\nB = 3\nend\ntrait T has\nint f(int a)\n// q\nvoid g()\nend\n",
        "extend U do\n int f() do\n return 1\n end\n // c\n void g() do\n end\nend\n",
        "extern \"c\" from \"x.h\" do\nint printf(string s, ...)\nstruct S has\nint a\n// in\nend\nconst int X\nend\n",
        "int main() do\n    while a < 3 do\n\n        a += 1\n\n    end\n    loop do\n break\n end\n for i in 0..3 do\n continue\n end\n l: for k, v in m do\n break l\n end\nend\n",
        "int main() do\n    string s = \"a{x}b{f(1, 2)}\"\n    string t = \"\"\"x\ny\"\"\"\n    char c = '\\n'\nend\n",
        "int main() do\n    string t = \"\"\"x{a}\ny\"\"\"\nend\n",
        "int main() do\nint x = a ? b : c ?? d\n    y = not a and b or (c is not d)\n    z = -x + ~y * (1 - 2) << 3\n    v = a[1..2]\n    w = a?.b.c(1)[2]\n    i++\n    --j\nend\n",
        "int main() do\n    someFunctionWithALongName(argumentNumberOne, argumentNumberTwo, argumentNumberThree, nestedCall(argumentA, argumentB, argumentC, argumentD, argumentE, argumentF, argumentGgggggggggg, argumentHhhhh))\nend\n",
        "int longFunctionNameThatIsVeryLong(int parameterNumberOne, int parameterNumberTwo, int parameterNumberThree, int four) do\n return 1\nend\n",
        "@inline\n@foo(1, a: 2)\nint f() do\nend\nint g() do\n    if a do\n    end\n    else do\n    // only\n    end\nend\n",
        "init do\n f()\nend\nconst int X = 3\nint g = 4 // g\ntypedef A = int\ndistinct B = int\n",
        "int main() do\n    assert x, \"m\"\n    debug_assert y\n    a, _ = f()\n    do\n    g()\n end\n    defer do\n h()\n end\n    return match x do\n .A(a) | .B -> 1\n (a, _) if a > 1 -> 2\n _ -> do\n return 3\n end\n end\nend\n",
        "int f<T>(T a, ref int b, out int c, ...string d) where T: Show do\nend\nint g() do\nreturn 1\nend\n",
        "int main() do\nx = |int a| => a + 1\n    y = (1, 2)\n    z = .A(1)\n    w = C.B\n    v = vec[]\nend\n",
        "int main() do\n    int[] a = [1111111111111111, 2222222222222222, 3333333333333333, 4444444444444444, 5555555555555555, 6666666666666]\nend\n",
        "int main() do\n    f(x) /* a\n b */\n    g()\nend\n",
        "/* a\n   b\n\n   c */\nint main() do\n  /* d\n   e */\n f()\nend\n",
        "int main() do\r\n    f()\r\n    // c\r\nend\r\n",
        "int main() do f(); g(); end\n",
        "import a::b::{c, d}\nint x = 1\nimport e\nint y = 2\n",
        "class A extends B implements C, D has\nend\nopen class E has\nint a\nend\n",
            "int main() do\n int x = - -y\n    z = - --w + + ++v\n    r = a..b\n    s = t[1..]\nend\n",
        "int? ? f(List<Map<int, string>> a, int:string b, int vec c, int arr[3] d, function<int(int, bool)> e, (int, bool) g, int* h) do\nend\n",
        "const int   X=1 /* a\nb */\nint f() do\nend\n",
        "/* a */ /* b\n   c */\nint f() do\n x() /* d */ /* e\n     f */\n /* g */ /* h\n   i */ y()\nend /* j\n k */ /* l */\n",
        "class P<T> where T: S extends Q<int> implements R has\nprivate int x = 1\npublic static void m(int a, string b) do\n return\n end\noverride int o() do\n return 1\n end\nend\n",
        "int main() do\n    User u = has\n name = \"a\", age = 3 end\n    User w = User has name = \"b\" end\n    int:string m = has\n 1: \"a\", 2: \"b\" end\n    int[] a = [1,2,\n3]\nend\n",
        "int main() do\n    if a do\n f()\n end\n else if b do\n g()\n end\n else do\n h()\n end\n    while not a do\n i -= 1\n end\nend\n",
        "int main() do\n  f(a: 1, ref b, out c)\n    x.y.z(1).w[2] = 3\n    this.a = super.b(1)\n    return\nend\n",
        "int main() do\n string s = \"a{f(\"//x\")}b\" // c\n string t = \"{a}/*{b}*/\"\nend\n",
        "int main() do\n  x = aaaaaaaaaaaaaaaaaaaaaaaaaaaaaaaaaaaaa + bbbbbbbbbbbbbbbbbbbbbbbbbbbbbbbbbbbbbbbb * ccccccccccccccccccccccccccccccccccccc - ddddddd\n  y = aaaaaaaaaaaaaaaaaaaaaaaaaaaaaaaaaaaaa and bbbbbbbbbbbbbbbbbbbbbbbbbbbbbbbbbbbbbbbb or ccccccccccccccccccccccccccccccccccccc\nend\n",
        "int main() do\n  aaaaaaaaaaaaaaaaaaaaaaaaaa.bbbbbbbbbbbbbbbbbbbbbbbb(cccccccccccccccc).dddddddddddddddddd(eeeeeeeeeeeeeeeeee).ffffffffffffffff()\n  x = cond ? aaaaaaaaaaaaaaaaaaaaaaaaaaaaaaaaaaaaaaaaaaaaaaaaaaaaaaa : bbbbbbbbbbbbbbbbbbbbbbbbbbbbbbbbbbbbbbbbbbbbbbbbbbb\nend\n",
        "int main() do\n  x = f(|int a, string b| => a + 1, match q do\n 1 -> 2\n _ -> 3\n end, [1, 2, |int z| do\n return z\n end])\n  return g(h(i(j(k(1, 2), 3), 4), |int w| do\n  w += 1\n // c\n return w\n end), 5)\nend\n",
        "int main() do\n  x = match y do\n  .A -> |int a| do\n return a\n end\n  .B(q, _) | .C if q > 1 -> match z do\n 1 -> 1\n _ -> do\n f()\n return 2\n end\n end\n  -1 -> \"neg\"\n true -> 'c'\n _ -> null\n end\nend\n",
        "class Pppppppppppppppppppppppppp<T, U: Show> where T: Show, U: Eq extends Qqqqqqqqqqqqqqqqqqqqqqqqqqq<T> implements Rrrrrrrrrrrrrrrrr, Sssssssssssss has\n sealed int m<V>(V a) where V: Show do\n return 1\n end\n static void s() do\n end\n explicit convert P to string do\n return \"\"\n end\n private operator [](int i) do\n return 1\n end\n operator >>(P o) do\n return 1\n end\n public Pppppppppppppppppppppppppp(int a, int b) initialize do\n f(a)\n end\n string name get do\n return \"a\"\n end\n int z\n private int y = 3\n int w\nend\n",
        "struct S<T> where T: Show has\n int a\n string bbbbbb = \"x\"\n\n private int[] c = [1, 2]\n public int d // e\nend\nenum E<T> where T: Show has\n A\n B(int x, string y)\n C = 4\nend\ntrait Tr<T> where T: Show has\n sealed int f(int a, ref T b)\n void g() where T: Eq\nend\n",
        "extend int do\n int x\n int f<T>(T a) do\n return 1\n end\n operator +(int o) do\n return 2\n end\n int p get do\n return 1\n end\n set(int v) do\n end\n convert int to string do\n return \"\"\n end\nend\n",
        "extern \"c\" from \"a.h\" do\n // one\n void f(int a, string b) // two\n enum E has\n A\n B\n end\n const int X // three\n struct S has\n int a // four\n int b\n end\nend // five\n",
        "public typedef A<T> = List<T>\nprivate distinct B = int:string\npublic const int X = 1 // x\nconst Y = 2\nprivate int g = f(1, 2)\nUser u = has\n a = 1 end\ninit do\n // only\nend\n",
        "int main() do\n  const int A = 1\n  const B = 2\n  string name = \"x\"\n  int n\n  bool ok = true // t\n\n  int:string m = has 1: \"a\" end\n  (a, _) = f()\n  int vec v = vec[]\n  v = [1]\n  double d = 1.50\n  char c = '\\''\nend\n",
        "int main() do\n  outer: loop do\n break outer\n end\n  lbl: for i in 0..=10 do\n continue lbl\n end\n  for k, v in m do\n f(k, v)\n end\n  while a < b and c > d do\n a++\n end\n  if a do\n f()\n end\n else if b do\n g()\n end\n else do\n h()\n end\n  do\n // c\n end\nend\n",
        "int main() do\n  x <<= 1\n  x >>= 2\n  y = a << 2 >> 3 & 4 | 5 ^ ~6\n  w = not a and b is not c\nend\n",
        "@a\n@b(1, \"x\", k: 2)\nclass C has\nend\n@c int f() do\nend\n// after\n@d\n// between\nstruct S has\nend\n",
        "int f(int a, // one\n int b, /* two */ int c) do // three\n return g(a, // four\n b, [c, // five\n d]) // six\nend\n",
        "int main() do\n  x = f(a)\n\n\n  // c\n\n  y = 1\n\n  // d\nend\n\n\n\n// e\n\nint g() do\nend\n",
];

#[test]
fn second_pass_changes_nothing() {
    for c in SOURCES {
        let once = fmt(c);
        assert_ne!(once, *c, "already formatted");
        assert_eq!(fmt(&once), once);
        assert!(is_formatted(&once).unwrap() || c.contains('\r'), "{once}");
    }
}

#[test]
fn comments_settle_wherever_they_stand() {
    let notes = [" /* c */ ", " // c\n", " /* a\n   b */ ", "\n\n", " /* a */ /* b\n  c */ // d\n", "/*\n\n*/"];
    let mut tried = 0;
    for c in SOURCES {
        for (i, _) in c.char_indices() {
            let before = c[..i].chars().last();
            let after = c[i..].chars().next();
            if !before.is_some_and(char::is_whitespace) && !after.is_some_and(char::is_whitespace) {
                continue;
            }
            for n in notes {
                let src = format!("{}{}{}", &c[..i], n, &c[i..]);
                if let Ok(once) = format_source(&src) {
                    tried += 1;
                    assert_eq!(fmt(&once), once, "{src}");
                }
            }
        }
    }
    assert!(tried > 9000, "{tried}");
}

#[test]
fn second_pass_changes_nothing_at_any_width() {
    for c in SOURCES {
        for (max_width, indent_width) in [(60, 4), (40, 2), (20, 8), (1, 0)] {
            let options = || FormatOptions { max_width, indent_width };
            let once = format_source_with_options(c, options()).unwrap();
            let twice = format_source_with_options(&once, options()).map_err(|e| e.message);
            assert_eq!(twice, Ok(once), "{max_width}");
        }
    }
}

#[test]
fn trailing_comment_of_several_lines_stays_where_it_starts() {
    let once = fmt("const int   X=1 /* a\nb */\nint f() do\nend\n");
    assert_eq!(once, "const int X = 1  /* a\nb */\n\nint f() do\nend\n");
    assert_eq!(fmt(&once), once);
}

#[test]
fn texts_without_code_settle() {
    let once = fmt("\n\n /* a */ /* b\n\n\n\n\n   c */ ;  // d  \n\n");
    assert_eq!(once, "/* a */\n/* b\n\n\nc */\n// d\n");
    assert_eq!(fmt(&once), once);
    assert_eq!(fmt(" \n ; \n"), "\n");
    assert_eq!(fmt("\n"), "\n");
}

#[test]
fn brace_in_a_string_stays_text() {
    let once = fmt("int main() do\nstring s=\"\\{a} { b\"\nend\n");
    assert_eq!(once, "int main() do\n    string s = \"\\{a} { b\"\nend\n");
    assert_eq!(fmt(&once), once);
}

#[test]
fn signs_stay_apart() {
    assert_eq!(fmt("int main() do\nx=- -y\nend\n"), "int main() do\n    x = - -y\nend\n");
}

#[test]
fn literals_are_written_as_they_are_read() {
    let src = "int main() do\n    f(0, 9007199254740993, '\\'', '\\\\', '\"', \"a\\\"b\\\\ \\t{ 'c'\", 1.50, true)\nend\n";
    assert_eq!(fmt(src), src);
}

#[test]
fn imports_settle() {
    let once = fmt("import  a :: b;import c::{ d ,\ne }\n\nimport f::{}");
    assert_eq!(once, "import a::b\nimport c::{d, e}\nimport f::{}\n");
    assert_eq!(fmt(&once), once);
}

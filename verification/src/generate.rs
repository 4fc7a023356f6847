//! What is generated from a HAL contract: stub sources and headers, names,
//! prompts and build-file sections.

use vstd::prelude::*;

use crate::coverage::{file_implements_stem, first_part, implements_stem};
use crate::cpp::{HalContractMethod, HalContractMethodView};
use crate::text::{
    add_item, after, after_last, before, begins, behind_last, char_uppercase, chars_of, contains, decimal,
    decimal_injective, ends, ends_with, find_after, find_from, find_last, has_text, head_of, join, joined, list_has,
    number_text, pieces, rfind, same, sort, sorted, split, starts_with, tail_of, text_of, to_uppercase, trim,
    trimmed,
};

verus! {

/// The mark that every generated placeholder carries.
pub const SPIRE_HAL_STUB_SENTINEL: &'static str = "SPIRE-HAL-STUB";

/// The text carries the mark of a pending implementation.
pub open spec fn is_stub_text(content: Seq<char>) -> bool {
    has_text(content, SPIRE_HAL_STUB_SENTINEL@)
}

/// Whether the text carries the mark of a pending implementation.
pub fn is_hal_stub(content: &str) -> (r: bool)
    ensures
        r == is_stub_text(content@),
{
    contains(content, SPIRE_HAL_STUB_SENTINEL)
}

// ---------------------------------------------------------------------------
// Stubs and headers
// ---------------------------------------------------------------------------

/// The head of a generated placeholder.
pub open spec fn stub_banner(subject: Seq<char>, what: Seq<char>, platform: Seq<char>) -> Seq<char> {
    "// "@
            + SPIRE_HAL_STUB_SENTINEL@
            + ": "@
            + subject
            + " — "@
            + platform
            + " implementation pending.\n// Replace the "@
            + what
            + " below with a real implementation.\n#pragma message(\"SPIRE HAL stub needs implementation: "@
            + subject
            + " ("@
            + platform
            + ")\")\n\n"@
}

fn write_banner(subject: &str, what: &str, platform: &str) -> (r: String)
    ensures
        r@ == stub_banner(subject@, what@, platform@),
{
    let mut s = "// ".to_owned();
    s.append(SPIRE_HAL_STUB_SENTINEL);
    s.append(": ");
    s.append(subject);
    s.append(" — ");
    s.append(platform);
    s.append(" implementation pending.\n// Replace the ");
    s.append(what);
    s.append(" below with a real implementation.\n#pragma message(\"SPIRE HAL stub needs implementation: ");
    s.append(subject);
    s.append(" (");
    s.append(platform);
    s.append(")\")\n\n");
    s
}

/// The placeholder definition of one method.
pub open spec fn stub_method(class_name: Seq<char>, m: HalContractMethodView, platform: Seq<char>) -> Seq<
    char,
> {
    let ret = trimmed(m.return_type);
    let head = ret
            + " "@
            + class_name
            + "::"@
            + m.name
            + "("@
            + m.params
            + ") {\n    /* TODO: implement for "@
            + platform
            + " */\n"@;
    if ret.len() == 0 || ret == "void"@ {
        head + "}\n\n"@
    } else {
        head + "    return {};\n"@ + "}\n\n"@
    }
}

/// The placeholder definitions of the first `n` methods, behind `head`.
pub open spec fn stub_methods(
    head: Seq<char>,
    class_name: Seq<char>,
    methods: Seq<HalContractMethodView>,
    platform: Seq<char>,
    n: int,
) -> Seq<char>
    decreases n,
{
    if n <= 0 {
        head
    } else {
        stub_methods(head, class_name, methods, platform, n - 1) + stub_method(
            class_name,
            methods[n - 1],
            platform,
        )
    }
}

/// The placeholder source of an interface on a platform.
pub open spec fn placeholder_source(
    header_stem: Seq<char>,
    class_name: Seq<char>,
    methods: Seq<HalContractMethodView>,
    platform: Seq<char>,
) -> Seq<char> {
    stub_methods(
        stub_banner(header_stem + ".cpp"@, "TODO bodies"@, platform) + "#include \""@ + header_stem
            + ".hpp\"\n\n"@,
        class_name,
        methods,
        platform,
        methods.len() as int,
    )
}

fn write_stub_method(class_name: &str, m: &HalContractMethod, platform: &str) -> (r: String)
    ensures
        r@ == stub_method(class_name@, m.deep_view(), platform@),
{
    let ret = trim(m.return_type.as_str());
    let mut s = ret.to_owned();
    s.append(" ");
    s.append(class_name);
    s.append("::");
    s.append(m.name.as_str());
    s.append("(");
    s.append(m.params.as_str());
    s.append(") {\n    /* TODO: implement for ");
    s.append(platform);
    s.append(" */\n");
    if !(ret.unicode_len() == 0 || same(ret, "void")) {
        s.append("    return {};\n");
    }
    s.append("}\n\n");
    s
}

/// The placeholder source of one interface on one platform: every pure-virtual
/// method as an out-of-class definition with a body still to be written, behind
/// the mark of a pending implementation.
pub fn generate_hal_placeholder_source(
    header_stem: &str,
    class_name: &str,
    methods: &Vec<HalContractMethod>,
    platform: &str,
) -> (r: String)
    ensures
        r@ == placeholder_source(header_stem@, class_name@, methods.deep_view(), platform@),
{
    let mut subject = header_stem.to_owned();
    subject.append(".cpp");
    let mut s = write_banner(subject.as_str(), "TODO bodies", platform);
    s.append("#include \"");
    s.append(header_stem);
    s.append(".hpp\"\n\n");
    let ghost head = s@;
    let mut i: usize = 0;
    while i < methods.len()
        invariant
            i <= methods@.len(),
            s@ == stub_methods(head, class_name@, methods.deep_view(), platform@, i as int),
        decreases methods@.len() - i,
    {
        s.append(write_stub_method(class_name, &methods[i], platform).as_str());
        i = i + 1;
    }
    s
}

/// The part of a concrete header before its methods.
pub open spec fn class_opening(
    header_stem: Seq<char>,
    impl_class: Seq<char>,
    base_class: Seq<char>,
    platform: Seq<char>,
) -> Seq<char> {
    "#include \"hal/api/"@
            + header_stem
            + ".hpp\"\n\nnamespace hal {\n\n/// "@
            + impl_class
            + " — "@
            + platform
            + " implementation of "@
            + base_class
            + ".\nclass "@
            + impl_class
            + " : public "@
            + base_class
            + " {\npublic:\n    "@
            + impl_class
            + "() = default;\n    ~"@
            + impl_class
            + "() override = default;\n\n"@
}

fn write_opening(header_stem: &str, impl_class: &str, base_class: &str, platform: &str) -> (r: String)
    ensures
        r@ == class_opening(header_stem@, impl_class@, base_class@, platform@),
{
    let mut s = "#include \"hal/api/".to_owned();
    s.append(header_stem);
    s.append(".hpp\"\n\nnamespace hal {\n\n/// ");
    s.append(impl_class);
    s.append(" — ");
    s.append(platform);
    s.append(" implementation of ");
    s.append(base_class);
    s.append(".\nclass ");
    s.append(impl_class);
    s.append(" : public ");
    s.append(base_class);
    s.append(" {\npublic:\n    ");
    s.append(impl_class);
    s.append("() = default;\n    ~");
    s.append(impl_class);
    s.append("() override = default;\n\n");
    s
}

/// The declaration of one overriding method.
pub open spec fn override_line(m: HalContractMethodView) -> Seq<char> {
    "    "@
            + trimmed(m.return_type)
            + " "@
            + m.name
            + "("@
            + m.params
            + ") override;\n\n"@
}

fn write_override(m: &HalContractMethod) -> (r: String)
    ensures
        r@ == override_line(m.deep_view()),
{
    let mut s = "    ".to_owned();
    s.append(trim(m.return_type.as_str()));
    s.append(" ");
    s.append(m.name.as_str());
    s.append("(");
    s.append(m.params.as_str());
    s.append(") override;\n\n");
    s
}

/// The declarations of the first `n` methods behind `head`; destructors, which the
/// class declares itself, are left out.
pub open spec fn override_lines(
    head: Seq<char>,
    methods: Seq<HalContractMethodView>,
    n: int,
) -> Seq<char>
    decreases n,
{
    if n <= 0 {
        head
    } else {
        let done = override_lines(head, methods, n - 1);
        if begins(methods[n - 1].name, "~"@) {
            done
        } else {
            done + override_line(methods[n - 1])
        }
    }
}

/// The part of a concrete header behind its methods.
pub open spec fn class_closing(state: Seq<char>) -> Seq<char> {
    "private:\n    // "@ + state + " (SDK handles, buffers, locks, config).\n    struct Impl;\n    Impl* impl_ = nullptr;\n};\n\n} // namespace hal\n"@
}

fn write_closing(state: &str) -> (r: String)
    ensures
        r@ == class_closing(state@),
{
    let mut s = "private:\n    // ".to_owned();
    s.append(state);
    s.append(" (SDK handles, buffers, locks, config).\n    struct Impl;\n    Impl* impl_ = nullptr;\n};\n\n} // namespace hal\n");
    s
}

fn write_overrides(head: String, methods: &Vec<HalContractMethod>) -> (r: String)
    ensures
        r@ == override_lines(head@, methods.deep_view(), methods@.len() as int),
{
    let ghost start = head@;
    let mut s = head;
    let mut i: usize = 0;
    while i < methods.len()
        invariant
            i <= methods@.len(),
            s@ == override_lines(start, methods.deep_view(), i as int),
        decreases methods@.len() - i,
    {
        if !starts_with(methods[i].name.as_str(), "~") {
            s.append(write_override(&methods[i]).as_str());
        }
        i = i + 1;
    }
    s
}

/// The pending header of a module pair.
pub open spec fn module_header(
    header_stem: Seq<char>,
    impl_class: Seq<char>,
    base_class: Seq<char>,
    methods: Seq<HalContractMethodView>,
    platform: Seq<char>,
) -> Seq<char> {
    override_lines(
        stub_banner(impl_class + ".hpp"@, "state + TODO bodies"@, platform) + class_opening(
            header_stem,
            impl_class,
            base_class,
            platform,
        ),
        methods,
        methods.len() as int,
    ) + class_closing("TODO: platform state"@)
}

/// The finished header of a module pair.
pub open spec fn module_header_clean(
    header_stem: Seq<char>,
    impl_class: Seq<char>,
    base_class: Seq<char>,
    methods: Seq<HalContractMethodView>,
    platform: Seq<char>,
) -> Seq<char> {
    override_lines(
        class_opening(header_stem, impl_class, base_class, platform),
        methods,
        methods.len() as int,
    ) + class_closing("Platform state"@)
}

/// The declaration header of a module pair: the concrete class with its
/// overrides and private state, behind the mark of a pending implementation.
pub fn generate_hal_module_header(
    header_stem: &str,
    impl_class: &str,
    base_class: &str,
    methods: &Vec<HalContractMethod>,
    platform: &str,
) -> (r: String)
    ensures
        r@ == module_header(header_stem@, impl_class@, base_class@, methods.deep_view(), platform@),
{
    let mut subject = impl_class.to_owned();
    subject.append(".hpp");
    let mut head = write_banner(subject.as_str(), "state + TODO bodies", platform);
    head.append(write_opening(header_stem, impl_class, base_class, platform).as_str());
    let mut s = write_overrides(head, methods);
    s.append(write_closing("TODO: platform state").as_str());
    s
}

/// The declaration header of a module pair without the mark of a pending
/// implementation, as a finished implementation has it.
pub fn generate_hal_module_header_clean(
    header_stem: &str,
    impl_class: &str,
    base_class: &str,
    methods: &Vec<HalContractMethod>,
    platform: &str,
) -> (r: String)
    ensures
        r@ == module_header_clean(
            header_stem@,
            impl_class@,
            base_class@,
            methods.deep_view(),
            platform@,
        ),
{
    let head = write_opening(header_stem, impl_class, base_class, platform);
    let mut s = write_overrides(head, methods);
    s.append(write_closing("Platform state").as_str());
    s
}

/// The module pair of one interface and platform: declaration header and
/// definition source.
pub fn generate_hal_module_pair(
    header_stem: &str,
    base_class: &str,
    impl_class: &str,
    methods: &Vec<HalContractMethod>,
    platform: &str,
) -> (r: (String, String))
    ensures
        r.0@ == module_header(header_stem@, impl_class@, base_class@, methods.deep_view(), platform@),
        r.1@ == placeholder_source(header_stem@, impl_class@, methods.deep_view(), platform@),
{
    (
        generate_hal_module_header(header_stem, impl_class, base_class, methods, platform),
        generate_hal_placeholder_source(header_stem, impl_class, methods, platform),
    )
}

// ---------------------------------------------------------------------------
// Names
// ---------------------------------------------------------------------------

/// A segment of a name with its first character in upper case.
pub open spec fn capitalized(p: Seq<char>) -> Seq<char> {
    char_uppercase(p[0]) + p.subrange(1, p.len() as int)
}

/// The first `n` segments capitalized and put together, empty ones left out.
pub open spec fn camel_upto(parts: Seq<Seq<char>>, n: int) -> Seq<char>
    decreases n,
{
    if n <= 0 {
        Seq::empty()
    } else {
        let done = camel_upto(parts, n - 1);
        if parts[n - 1].len() == 0 {
            done
        } else {
            done + capitalized(parts[n - 1])
        }
    }
}

/// A name in camel case: its segments between underscores, each capitalized.
pub open spec fn camel(s: Seq<char>) -> Seq<char> {
    camel_upto(pieces(s, '_'), pieces(s, '_').len() as int)
}

fn write_camel(s: &str) -> (r: String)
    ensures
        r@ == camel(s@),
{
    let parts = split(s, '_');
    let mut out = String::new();
    let mut i: usize = 0;
    while i < parts.len()
        invariant
            i <= parts@.len(),
            out@ == camel_upto(parts.deep_view(), i as int),
        decreases parts@.len() - i,
    {
        let chars = chars_of(parts[i].as_str());
        if chars.len() > 0 {
            let mut piece = to_uppercase(chars[0]);
            piece.append(text_of(&chars, 1, chars.len()).as_str());
            out.append(piece.as_str());
        }
        i = i + 1;
    }
    out
}

/// The concrete class name for an interface stem and a variant, every segment
/// between underscores capitalized: `camera_hal` and `rock3c` give
/// `CameraHalRock3c`.
pub fn hal_impl_class_name(iface: &str, variant: &str) -> (r: String)
    ensures
        r@ == camel(iface@) + camel(variant@),
{
    let mut s = write_camel(iface);
    s.append(write_camel(variant).as_str());
    s
}

/// The variant token of attempt `n`: the platform, then the platform with a
/// number.
pub open spec fn token(plat: Seq<char>, n: int) -> Seq<char> {
    if n <= 1 {
        plat
    } else {
        plat + "_"@ + decimal(n)
    }
}

/// The file name of an interface's implementation.
pub open spec fn impl_file(iface: Seq<char>, tok: Seq<char>, extension: Seq<char>) -> Seq<char> {
    iface + "_"@ + tok + extension
}

/// One of the two files of attempt `n` exists.
pub open spec fn pair_taken(names: Seq<Seq<char>>, iface: Seq<char>, plat: Seq<char>, n: int) -> bool {
    names.contains(impl_file(iface, token(plat, n), ".cpp"@)) || names.contains(
        impl_file(iface, token(plat, n), ".hpp"@),
    )
}

/// `n` is the first attempt whose files are both free.
pub open spec fn first_free(names: Seq<Seq<char>>, iface: Seq<char>, plat: Seq<char>, n: int) -> bool {
    &&& n >= 1
    &&& !pair_taken(names, iface, plat, n)
    &&& forall|m: int| 1 <= m < n ==> #[trigger] pair_taken(names, iface, plat, m)
}

/// The names of attempt `n`: class, source file and header file.
pub open spec fn impl_names(iface: Seq<char>, plat: Seq<char>, n: int) -> (
    Seq<char>,
    Seq<char>,
    Seq<char>,
) {
    (
        camel(iface) + camel(token(plat, n)),
        impl_file(iface, token(plat, n), ".cpp"@),
        impl_file(iface, token(plat, n), ".hpp"@),
    )
}

fn write_impl_file(iface: &str, tok: &str, extension: &str) -> (r: String)
    ensures
        r@ == impl_file(iface@, tok@, extension@),
{
    let mut s = iface.to_owned();
    s.append("_");
    s.append(tok);
    s.append(extension);
    s
}

/// The positions in the list whose names attempts from `n` on would use.
spec fn blocking(names: Seq<Seq<char>>, iface: Seq<char>, plat: Seq<char>, n: int) -> Set<int> {
    Set::new(
        |j: int|
            0 <= j < names.len() && exists|m: int|
                n <= m && (names[j] == #[trigger] impl_file(iface, token(plat, m), ".cpp"@) || names[j]
                    == impl_file(iface, token(plat, m), ".hpp"@)),
    )
}

proof fn blocking_finite(names: Seq<Seq<char>>, iface: Seq<char>, plat: Seq<char>, n: int)
    ensures
        blocking(names, iface, plat, n).finite(),
        blocking(names, iface, plat, n).len() <= names.len(),
{
    let all = vstd::set_lib::set_int_range(0, names.len() as int);
    vstd::set_lib::lemma_int_range(0, names.len() as int);
    assert(blocking(names, iface, plat, n).subset_of(all));
    vstd::set_lib::lemma_len_subset(blocking(names, iface, plat, n), all);
}

proof fn concat_cancel(a: Seq<char>, x: Seq<char>, y: Seq<char>)
    requires
        a + x == a + y,
    ensures
        x == y,
{
    let s = a + x;
    let t = a + y;
    assert(s.subrange(a.len() as int, s.len() as int) =~= x);
    assert(t.subrange(a.len() as int, t.len() as int) =~= y);
}

proof fn token_injective(plat: Seq<char>, a: int, b: int)
    requires
        1 <= a,
        1 <= b,
        token(plat, a) == token(plat, b),
    ensures
        a == b,
{
    reveal_strlit("_");
    if a > 1 && b > 1 {
        assert(plat + "_"@ + decimal(a) == plat + "_"@ + decimal(b));
        concat_cancel(plat + "_"@, decimal(a), decimal(b));
        decimal_injective(a, b);
    } else if a > 1 {
        assert(token(plat, a).len() > plat.len());
    } else if b > 1 {
        assert(token(plat, b).len() > plat.len());
    }
}

proof fn impl_file_injective(
    iface: Seq<char>,
    a: Seq<char>,
    b: Seq<char>,
    ea: Seq<char>,
    eb: Seq<char>,
)
    requires
        ea == ".cpp"@ || ea == ".hpp"@,
        eb == ".cpp"@ || eb == ".hpp"@,
        impl_file(iface, a, ea) == impl_file(iface, b, eb),
    ensures
        a == b,
{
    reveal_strlit(".cpp");
    reveal_strlit(".hpp");
    let x = iface + "_"@ + a;
    let y = iface + "_"@ + b;
    assert(x + ea == y + eb);
    assert((x + ea).len() == (y + eb).len());
    assert(x.len() == y.len());
    assert forall|i: int| 0 <= i < x.len() implies x[i] == y[i] by {
        assert((x + ea)[i] == (y + eb)[i]);
    }
    assert(x =~= y);
    concat_cancel(iface + "_"@, a, b);
}

proof fn blocking_shrinks(names: Seq<Seq<char>>, iface: Seq<char>, plat: Seq<char>, n: int)
    requires
        n >= 1,
        pair_taken(names, iface, plat, n),
    ensures
        blocking(names, iface, plat, n + 1).len() < blocking(names, iface, plat, n).len(),
{
    let small = blocking(names, iface, plat, n + 1);
    let big = blocking(names, iface, plat, n);
    blocking_finite(names, iface, plat, n);
    blocking_finite(names, iface, plat, n + 1);
    let extension = if names.contains(impl_file(iface, token(plat, n), ".cpp"@)) {
        ".cpp"@
    } else {
        ".hpp"@
    };
    let taken = impl_file(iface, token(plat, n), extension);
    let j = choose|j: int| 0 <= j < names.len() && #[trigger] names[j] == taken;
    assert(big.contains(j)) by {
        assert(names[j] == impl_file(iface, token(plat, n), ".cpp"@) || names[j] == impl_file(
            iface,
            token(plat, n),
            ".hpp"@,
        ));
    }
    assert(!small.contains(j)) by {
        if small.contains(j) {
            let m = choose|m: int|
                n + 1 <= m && (names[j] == #[trigger] impl_file(iface, token(plat, m), ".cpp"@)
                    || names[j] == impl_file(iface, token(plat, m), ".hpp"@));
            let other = if names[j] == impl_file(iface, token(plat, m), ".cpp"@) {
                ".cpp"@
            } else {
                ".hpp"@
            };
            impl_file_injective(iface, token(plat, n), token(plat, m), extension, other);
            token_injective(plat, n, m);
        }
    }
    assert(small.subset_of(big)) by {
        assert forall|k: int| small.contains(k) implies big.contains(k) by {
            let m = choose|m: int|
                n + 1 <= m && (names[k] == #[trigger] impl_file(iface, token(plat, m), ".cpp"@)
                    || names[k] == impl_file(iface, token(plat, m), ".hpp"@));
            assert(n <= m);
            assert(names[k] == impl_file(iface, token(plat, m), ".cpp"@) || names[k] == impl_file(
                iface,
                token(plat, m),
                ".hpp"@,
            ));
        }
    }
    assert(small.subset_of(big.remove(j)));
    vstd::set_lib::lemma_len_subset(small, big.remove(j));
}

/// The names for a new implementation of an interface on a platform: the first
/// pair `<iface>_<plat>`, `<iface>_<plat>_2`, and so on of which neither file
/// stands in the implementation directory, whose entries are `existing`. The
/// result holds class name, source file and header file.
pub fn resolve_hal_impl_names(iface: &str, plat: &str, existing: &Vec<String>) -> (r: (
    String,
    String,
    String,
))
    requires
        existing.len() < usize::MAX,
    ensures
        exists|n: int|
            #[trigger] first_free(existing.deep_view(), iface@, plat@, n) && r.deep_view()
                == impl_names(iface@, plat@, n),
{
    let ghost names = existing.deep_view();
    let mut tok = plat.to_owned();
    let mut n: usize = 1;
    proof {
        blocking_finite(names, iface@, plat@, 1);
    }
    loop
        invariant
            names == existing.deep_view(),
            existing.len() < usize::MAX,
            n >= 1,
            tok@ == token(plat@, n as int),
            forall|m: int| 1 <= m < n ==> #[trigger] pair_taken(names, iface@, plat@, m),
            n + blocking(names, iface@, plat@, n as int).len() <= names.len() + 1,
        decreases blocking(names, iface@, plat@, n as int).len(),
    {
        let cpp = write_impl_file(iface, tok.as_str(), ".cpp");
        let hpp = write_impl_file(iface, tok.as_str(), ".hpp");
        if !list_has(existing, cpp.as_str()) && !list_has(existing, hpp.as_str()) {
            let class = hal_impl_class_name(iface, tok.as_str());
            assert(first_free(names, iface@, plat@, n as int));
            return (class, cpp, hpp);
        }
        proof {
            blocking_shrinks(names, iface@, plat@, n as int);
        }
        n = n + 1;
        tok = plat.to_owned();
        tok.append("_");
        tok.append(number_text(n).as_str());
    }
}

/// A file of the implementation directory: its name and, where it could be
/// read, its text.
pub open spec fn content_of(files: Seq<(Seq<char>, Option<Seq<char>>)>, name: Seq<char>, k: int) -> Option<
    Option<Seq<char>>,
>
    decreases files.len() - k,
{
    if k < 0 || k >= files.len() {
        None
    } else if files[k].0 == name {
        Some(files[k].1)
    } else {
        content_of(files, name, k + 1)
    }
}

/// The file may be replaced: it does not exist, or is a pending stub.
pub open spec fn replaceable(files: Seq<(Seq<char>, Option<Seq<char>>)>, name: Seq<char>) -> bool {
    match content_of(files, name, 0) {
        None => true,
        Some(None) => false,
        Some(Some(content)) => is_stub_text(content),
    }
}

/// The names of files.
pub open spec fn file_names(files: Seq<(Seq<char>, Option<Seq<char>>)>) -> Seq<Seq<char>> {
    Seq::new(files.len(), |i: int| files[i].0)
}

fn can_replace(files: &Vec<(String, Option<String>)>, name: &str) -> (r: bool)
    ensures
        r == replaceable(files.deep_view(), name@),
{
    let mut k: usize = 0;
    while k < files.len()
        invariant
            k <= files@.len(),
            content_of(files.deep_view(), name@, 0) == content_of(
                files.deep_view(),
                name@,
                k as int,
            ),
        decreases files@.len() - k,
    {
        if same(files[k].0.as_str(), name) {
            return match &files[k].1 {
                Some(content) => is_hal_stub(content.as_str()),
                None => false,
            };
        }
        k = k + 1;
    }
    true
}

/// The names for a generated implementation: the pair `<iface>_<plat>` where
/// each of its files is free or a pending stub, which the generation replaces;
/// else the first free pair, so that no finished implementation is overwritten.
pub fn resolve_semantic_hal_impl_names(
    iface: &str,
    plat: &str,
    files: &Vec<(String, Option<String>)>,
) -> (r: (String, String, String))
    requires
        files.len() < usize::MAX,
    ensures
        ({
            let view = files.deep_view();
            if replaceable(view, impl_file(iface@, plat@, ".cpp"@)) && replaceable(
                view,
                impl_file(iface@, plat@, ".hpp"@),
            ) {
                r.deep_view() == impl_names(iface@, plat@, 1)
            } else {
                exists|n: int|
                    #[trigger] first_free(file_names(view), iface@, plat@, n) && r.deep_view()
                        == impl_names(iface@, plat@, n)
            }
        }),
{
    let cpp = write_impl_file(iface, plat, ".cpp");
    let hpp = write_impl_file(iface, plat, ".hpp");
    if can_replace(files, cpp.as_str()) && can_replace(files, hpp.as_str()) {
        return (hal_impl_class_name(iface, plat), cpp, hpp);
    }
    let ghost view = files.deep_view();
    let mut names: Vec<String> = Vec::new();
    assert(names.deep_view() =~= Seq::new(0, |j: int| view[j].0));
    let mut i: usize = 0;
    while i < files.len()
        invariant
            i <= files@.len(),
            view == files.deep_view(),
            names.deep_view() == Seq::new(i as nat, |j: int| view[j].0),
        decreases files@.len() - i,
    {
        add_item(&mut names, files[i].0.clone());
        assert(names.deep_view() =~= Seq::new((i + 1) as nat, |j: int| view[j].0));
        i = i + 1;
    }
    assert(names.deep_view() == file_names(view));
    assert(names.deep_view().len() == files@.len());
    resolve_hal_impl_names(iface, plat, &names)
}

// ---------------------------------------------------------------------------
// Prompts
// ---------------------------------------------------------------------------

/// The library hints for a platform.
pub open spec fn library_hints_for(platform: Seq<char>) -> Seq<char> {
    if platform == "rpi5"@ {
        "libcamera / V4L2 (linux/videodev2.h, libcamera/libcamera.h), mmap frame capture via IOCTLs"@
    } else if platform == "rock3c"@ {
        "rknn-toolkit2 (rknn_api.h), MPP (rockchip/mpp_buffer.h, rk_mpi.h), RGA (rga.h / librga)"@
    } else if platform == "rock5b"@ {
        "rknn-toolkit2 (rknn_api.h), MPP (rockchip/mpp_buffer.h, rk_mpi.h), RGA (rga.h / librga)"@
    } else if platform == "imx219"@ {
        "libcamera camera-sensor API, I2C (linux/i2c-dev.h) register programming"@
    } else if platform == "a7s"@ {
        "Linux V4L2 (linux/videodev2.h), mmap streaming, I2C (linux/i2c-dev.h)"@
    } else {
        "Use the platform's standard SDK and drivers (see ~/.spire/platforms/"@ + platform + ".yaml); prefer POSIX/Linux system APIs where available."@
    }
}

/// Default library hints for the implementation prompt: known ones for the
/// seeded platforms, else a pointer to the platform's own SDK.
pub fn hal_platform_library_hints(platform: &str) -> (r: String)
    ensures
        r@ == library_hints_for(platform@),
{
    if same(platform, "rpi5") {
        "libcamera / V4L2 (linux/videodev2.h, libcamera/libcamera.h), mmap frame capture via IOCTLs".to_owned()
    } else if same(platform, "rock3c") {
        "rknn-toolkit2 (rknn_api.h), MPP (rockchip/mpp_buffer.h, rk_mpi.h), RGA (rga.h / librga)".to_owned()
    } else if same(platform, "rock5b") {
        "rknn-toolkit2 (rknn_api.h), MPP (rockchip/mpp_buffer.h, rk_mpi.h), RGA (rga.h / librga)".to_owned()
    } else if same(platform, "imx219") {
        "libcamera camera-sensor API, I2C (linux/i2c-dev.h) register programming".to_owned()
    } else if same(platform, "a7s") {
        "Linux V4L2 (linux/videodev2.h), mmap streaming, I2C (linux/i2c-dev.h)".to_owned()
    } else {
        let mut s = "Use the platform's standard SDK and drivers (see ~/.spire/platforms/".to_owned();
        s.append(platform);
        s.append(".yaml); prefer POSIX/Linux system APIs where available.");
        s
    }
}

/// The request to implement one interface for one target.
pub open spec fn impl_prompt(
    contract_summary: Seq<char>,
    header_stem: Seq<char>,
    class_name: Seq<char>,
    platform_id: Seq<char>,
    platform_name: Seq<char>,
    hardware_profile: Seq<char>,
    library_hints: Seq<char>,
    build_target_name: Seq<char>,
) -> Seq<char> {
    "Implement one HAL interface for one target.\n\nCONTRACT (binding — do not change signatures):\n"@
            + contract_summary
            + "\n\nTARGET: "@
            + platform_name
            + " ("@
            + platform_id
            + ")\nHARDWARE PROFILE:\n"@
            + trimmed(hardware_profile)
            + "\n\nTECHNIQUES + LIBRARIES TO USE:\n"@
            + trimmed(library_hints)
            + "\n\nYOUR TASK:\nWrite a single .cpp file that provides OUT-OF-CLASS definitions for every\npublic pure-virtual method of `"@
            + class_name
            + "` (from `"@
            + header_stem
            + ".hpp`), using\nthe target's hardware/libraries above. The interface is the contract — the\nimplementation must match it exactly (names, return types, parameter lists).\n\nRULES:\n- One interface, one target, one file. Do NOT touch other interfaces or platforms.\n- Do NOT modify `"@
            + header_stem
            + ".hpp`.\n- Return values for non-void methods on errors: value-initialized objects or a\n  documented error value consistent with the contract's docs.\n- The file will be compiled against the target's cross toolchain.\n\nGATE:\nThe implementation is accepted only when it compiles on this target:\n  meson compile -C build-"@
            + platform_id
            + " "@
            + build_target_name
            + "\n"@
}

/// The request to implement one interface for one target: contract, hardware,
/// libraries, task, rules and the build that has to succeed.
pub fn generate_hal_impl_prompt(
    contract_summary: &str,
    header_stem: &str,
    class_name: &str,
    platform_id: &str,
    platform_name: &str,
    hardware_profile: &str,
    library_hints: &str,
    build_target_name: &str,
) -> (r: String)
    ensures
        r@ == impl_prompt(
            contract_summary@,
            header_stem@,
            class_name@,
            platform_id@,
            platform_name@,
            hardware_profile@,
            library_hints@,
            build_target_name@,
        ),
{
    let hardware = trim(hardware_profile);
    let libraries = trim(library_hints);
    let mut s = "Implement one HAL interface for one target.\n\nCONTRACT (binding — do not change signatures):\n".to_owned();
    s.append(contract_summary);
    s.append("\n\nTARGET: ");
    s.append(platform_name);
    s.append(" (");
    s.append(platform_id);
    s.append(")\nHARDWARE PROFILE:\n");
    s.append(hardware);
    s.append("\n\nTECHNIQUES + LIBRARIES TO USE:\n");
    s.append(libraries);
    s.append("\n\nYOUR TASK:\nWrite a single .cpp file that provides OUT-OF-CLASS definitions for every\npublic pure-virtual method of `");
    s.append(class_name);
    s.append("` (from `");
    s.append(header_stem);
    s.append(".hpp`), using\nthe target's hardware/libraries above. The interface is the contract — the\nimplementation must match it exactly (names, return types, parameter lists).\n\nRULES:\n- One interface, one target, one file. Do NOT touch other interfaces or platforms.\n- Do NOT modify `");
    s.append(header_stem);
    s.append(".hpp`.\n- Return values for non-void methods on errors: value-initialized objects or a\n  documented error value consistent with the contract's docs.\n- The file will be compiled against the target's cross toolchain.\n\nGATE:\nThe implementation is accepted only when it compiles on this target:\n  meson compile -C build-");
    s.append(platform_id);
    s.append(" ");
    s.append(build_target_name);
    s.append("\n");
    s
}

/// A block of a prompt, or what stands for an empty one.
pub open spec fn block_or(block: Seq<char>, none: Seq<char>) -> Seq<char> {
    if trimmed(block).len() == 0 {
        none
    } else {
        block
    }
}

/// The documentation that precedes a prompt.
pub open spec fn prompt_preface(
    contract_docs: Seq<char>,
    datatype_docs: Seq<char>,
    platform_name: Seq<char>,
    capability_matrix: Seq<char>,
) -> Seq<char> {
    "## CONTRACT STRUCTURED DOCS\n"@
            + block_or(contract_docs, "(none)\n"@)
            + "\n## DATATYPE DOCS\n"@
            + block_or(datatype_docs, "(none)\n"@)
            + "\n## PLATFORM CAPABILITY MATRIX ("@
            + platform_name
            + ")\n"@
            + block_or(capability_matrix, "(unavailable)\n"@)
}

fn choose_block<'a>(block: &'a str, none: &'a str) -> (r: &'a str)
    ensures
        r@ == block_or(block@, none@),
{
    if trim(block).unicode_len() == 0 {
        none
    } else {
        block
    }
}

fn write_preface(
    contract_docs: &str,
    datatype_docs: &str,
    platform_name: &str,
    capability_matrix: &str,
) -> (r: String)
    ensures
        r@ == prompt_preface(contract_docs@, datatype_docs@, platform_name@, capability_matrix@),
{
    let a = choose_block(contract_docs, "(none)\n");
    let b = choose_block(datatype_docs, "(none)\n");
    let c = choose_block(capability_matrix, "(unavailable)\n");
    let mut s = "## CONTRACT STRUCTURED DOCS\n".to_owned();
    s.append(a);
    s.append("\n## DATATYPE DOCS\n");
    s.append(b);
    s.append("\n## PLATFORM CAPABILITY MATRIX (");
    s.append(platform_name);
    s.append(")\n");
    s.append(c);
    s
}

/// The request to implement one interface, preceded by the documentation of the
/// contract, its data types and the platform.
pub fn generate_hal_impl_prompt_rich(
    contract_summary: &str,
    header_stem: &str,
    class_name: &str,
    platform_id: &str,
    platform_name: &str,
    hardware_profile: &str,
    library_hints: &str,
    build_target_name: &str,
    contract_docs: &str,
    datatype_docs: &str,
    capability_matrix: &str,
) -> (r: String)
    ensures
        r@ == prompt_preface(contract_docs@, datatype_docs@, platform_name@, capability_matrix@)
            + "\n"@ + impl_prompt(
            contract_summary@,
            header_stem@,
            class_name@,
            platform_id@,
            platform_name@,
            hardware_profile@,
            library_hints@,
            build_target_name@,
        ),
{
    let base = generate_hal_impl_prompt(
        contract_summary,
        header_stem,
        class_name,
        platform_id,
        platform_name,
        hardware_profile,
        library_hints,
        build_target_name,
    );
    let mut s = write_preface(contract_docs, datatype_docs, platform_name, capability_matrix);
    s.append("\n");
    s.append(base.as_str());
    s
}

/// The request to write the source of a module pair; the texts are trimmed.
pub open spec fn pair_prompt(
    contract_summary: Seq<char>,
    header_stem: Seq<char>,
    impl_class: Seq<char>,
    base_class: Seq<char>,
    platform_id: Seq<char>,
    platform_name: Seq<char>,
    hardware_profile: Seq<char>,
    library_hints: Seq<char>,
    build_target_name: Seq<char>,
    impl_header: Seq<char>,
) -> Seq<char> {
    "Implement the .cpp definition file for ONE HAL module pair.\n\nCONTRACT (binding — do not change signatures):\n"@
            + contract_summary
            + "\n\nTARGET: "@
            + platform_name
            + " ("@
            + platform_id
            + ")\nHARDWARE PROFILE:\n"@
            + hardware_profile
            + "\n\nTECHNIQUES + LIBRARIES TO USE:\n"@
            + library_hints
            + "\n\nIMPLEMENTATION HEADER (already written — implement against THIS file exactly):\n"@
            + impl_header
            + "\n\nYOUR TASK:\nWrite a single .cpp file that provides OUT-OF-CLASS definitions for the module\npair declared in the header above (`"@
            + impl_class
            + " : public "@
            + base_class
            + "`):\n  1. the `"@
            + impl_class
            + "::Impl` struct definition (private state: SDK handles,\n     buffers, locks, config),\n  2. the constructor/destructor (allocate/free `impl_`),\n  3. a real (non-TODO) body for every `override` method,\nusing the target's hardware/libraries above and matching the contract's names,\nreturn types and parameter lists EXACTLY.\n\nRULES:\n- One interface, one target, one file. Do NOT touch other interfaces or platforms.\n- Do NOT modify `"@
            + header_stem
            + ".hpp` or the impl header.\n- Do NOT emit `SPIRE-HAL-STUB` or `#pragma message` — this is a real implementation.\n- Non-void methods return a real value: value-initialized or a documented error\n  value consistent with the contract's docs.\n- Return ONLY the .cpp source code — no markdown fences, no prose, no file path.\n\nGATE:\nThe implementation is accepted only when it compiles on this target:\n  meson compile -C build-"@
            + platform_id
            + " "@
            + build_target_name
            + "\n"@
}

/// The request to write the source of one module pair against its header,
/// preceded by the documentation of the contract, its data types and the
/// platform.
pub fn generate_hal_impl_prompt_pair(
    contract_summary: &str,
    header_stem: &str,
    impl_class: &str,
    base_class: &str,
    platform_id: &str,
    platform_name: &str,
    hardware_profile: &str,
    library_hints: &str,
    build_target_name: &str,
    impl_header: &str,
    contract_docs: &str,
    datatype_docs: &str,
    capability_matrix: &str,
) -> (r: String)
    ensures
        r@ == prompt_preface(contract_docs@, datatype_docs@, platform_name@, capability_matrix@)
            + pair_prompt(
            trimmed(contract_summary@),
            trimmed(header_stem@),
            trimmed(impl_class@),
            trimmed(base_class@),
            trimmed(platform_id@),
            trimmed(platform_name@),
            trimmed(hardware_profile@),
            trimmed(library_hints@),
            trimmed(build_target_name@),
            trimmed(impl_header@),
        ),
{
    let mut r = write_preface(contract_docs, datatype_docs, platform_name, capability_matrix);
    let contract_summary = trim(contract_summary);
    let header_stem = trim(header_stem);
    let impl_class = trim(impl_class);
    let base_class = trim(base_class);
    let platform_id = trim(platform_id);
    let platform_name = trim(platform_name);
    let hardware_profile = trim(hardware_profile);
    let library_hints = trim(library_hints);
    let build_target_name = trim(build_target_name);
    let impl_header = trim(impl_header);
    let mut s = "Implement the .cpp definition file for ONE HAL module pair.\n\nCONTRACT (binding — do not change signatures):\n".to_owned();
    s.append(contract_summary);
    s.append("\n\nTARGET: ");
    s.append(platform_name);
    s.append(" (");
    s.append(platform_id);
    s.append(")\nHARDWARE PROFILE:\n");
    s.append(hardware_profile);
    s.append("\n\nTECHNIQUES + LIBRARIES TO USE:\n");
    s.append(library_hints);
    s.append("\n\nIMPLEMENTATION HEADER (already written — implement against THIS file exactly):\n");
    s.append(impl_header);
    s.append("\n\nYOUR TASK:\nWrite a single .cpp file that provides OUT-OF-CLASS definitions for the module\npair declared in the header above (`");
    s.append(impl_class);
    s.append(" : public ");
    s.append(base_class);
    s.append("`):\n  1. the `");
    s.append(impl_class);
    s.append("::Impl` struct definition (private state: SDK handles,\n     buffers, locks, config),\n  2. the constructor/destructor (allocate/free `impl_`),\n  3. a real (non-TODO) body for every `override` method,\nusing the target's hardware/libraries above and matching the contract's names,\nreturn types and parameter lists EXACTLY.\n\nRULES:\n- One interface, one target, one file. Do NOT touch other interfaces or platforms.\n- Do NOT modify `");
    s.append(header_stem);
    s.append(".hpp` or the impl header.\n- Do NOT emit `SPIRE-HAL-STUB` or `#pragma message` — this is a real implementation.\n- Non-void methods return a real value: value-initialized or a documented error\n  value consistent with the contract's docs.\n- Return ONLY the .cpp source code — no markdown fences, no prose, no file path.\n\nGATE:\nThe implementation is accepted only when it compiles on this target:\n  meson compile -C build-");
    s.append(platform_id);
    s.append(" ");
    s.append(build_target_name);
    s.append("\n");
    r.append(s.as_str());
    r
}

// ---------------------------------------------------------------------------
// Build-file sections
// ---------------------------------------------------------------------------

/// The variable that lists a platform's sources.
pub open spec fn sources_var(platform: Seq<char>) -> Seq<char> {
    "hal_impl_"@ + platform + "_sources"@
}

/// The lines of a source list, one for each entry.
pub open spec fn source_lines(entries: Seq<Seq<char>>) -> Seq<char> {
    joined(Seq::new(entries.len(), |i: int| "        '"@ + entries[i] + "',"@), "\n"@)
}

/// A source list as it stands in the build file.
pub open spec fn sources_list(platform: Seq<char>, entries: Seq<Seq<char>>) -> Seq<char> {
    sources_var(platform) + " = files(\n"@ + source_lines(entries) + "\n    )"@
}

fn write_var(platform: &str) -> (r: String)
    ensures
        r@ == sources_var(platform@),
{
    let mut s = "hal_impl_".to_owned();
    s.append(platform);
    s.append("_sources");
    s
}

fn write_sources(platform: &str, entries: &Vec<String>) -> (r: String)
    ensures
        r@ == sources_list(platform@, entries.deep_view()),
{
    let ghost all = entries.deep_view();
    let mut rows: Vec<String> = Vec::new();
    assert(rows.deep_view() =~= Seq::new(0, |j: int| "        '"@ + all[j] + "',"@));
    let mut i: usize = 0;
    while i < entries.len()
        invariant
            i <= entries@.len(),
            all == entries.deep_view(),
            rows.deep_view() == Seq::new(i as nat, |j: int| "        '"@ + all[j] + "',"@),
        decreases entries@.len() - i,
    {
        let mut row = "        '".to_owned();
        row.append(entries[i].as_str());
        row.append("',");
        add_item(&mut rows, row);
        assert(rows.deep_view() =~= Seq::new((i + 1) as nat, |j: int| "        '"@ + all[j] + "',"@));
        i = i + 1;
    }
    let mut s = write_var(platform);
    s.append(" = files(\n");
    s.append(join(&rows, "\n").as_str());
    s.append("\n    )");
    s
}

/// The entry of an implementation file in the source list.
pub open spec fn source_entry(platform: Seq<char>, file: Seq<char>) -> Seq<char> {
    "implementations/"@ + platform + "/"@ + file
}

/// The entries of implementation files.
pub open spec fn source_entries(platform: Seq<char>, files: Seq<Seq<char>>) -> Seq<Seq<char>> {
    Seq::new(files.len(), |i: int| source_entry(platform, files[i]))
}

fn write_entry(platform: &str, file: &str) -> (r: String)
    ensures
        r@ == source_entry(platform@, file@),
{
    let mut s = "implementations/".to_owned();
    s.append(platform);
    s.append("/");
    s.append(file);
    s
}

fn write_entries(platform: &str, files: &Vec<String>) -> (r: Vec<String>)
    ensures
        r.deep_view() == source_entries(platform@, files.deep_view()),
{
    let ghost all = files.deep_view();
    let mut out: Vec<String> = Vec::new();
    assert(out.deep_view() =~= Seq::new(0, |j: int| source_entry(platform@, all[j])));
    let mut i: usize = 0;
    while i < files.len()
        invariant
            i <= files@.len(),
            all == files.deep_view(),
            out.deep_view() == Seq::new(i as nat, |j: int| source_entry(platform@, all[j])),
        decreases files@.len() - i,
    {
        add_item(&mut out, write_entry(platform, files[i].as_str()));
        assert(out.deep_view() =~= Seq::new((i + 1) as nat, |j: int| source_entry(platform@, all[j])));
        i = i + 1;
    }
    out
}

/// The stub file of an interface.
pub open spec fn stub_files(stems: Seq<Seq<char>>) -> Seq<Seq<char>> {
    Seq::new(stems.len(), |i: int| stems[i] + "_stub.cpp"@)
}

/// The source list of a new platform: one stub for each interface.
pub fn hal_meson_var_section(platform: &str, interface_stems: &Vec<String>) -> (r: String)
    ensures
        r@ == sources_list(
            platform@,
            source_entries(platform@, stub_files(interface_stems.deep_view())),
        ) + "\n"@,
{
    let ghost all = interface_stems.deep_view();
    let mut files: Vec<String> = Vec::new();
    assert(files.deep_view() =~= Seq::new(0, |j: int| all[j] + "_stub.cpp"@));
    let mut i: usize = 0;
    while i < interface_stems.len()
        invariant
            i <= interface_stems@.len(),
            all == interface_stems.deep_view(),
            files.deep_view() == Seq::new(i as nat, |j: int| all[j] + "_stub.cpp"@),
        decreases interface_stems@.len() - i,
    {
        let mut f = interface_stems[i].clone();
        f.append("_stub.cpp");
        add_item(&mut files, f);
        assert(files.deep_view() =~= Seq::new((i + 1) as nat, |j: int| all[j] + "_stub.cpp"@));
        i = i + 1;
    }
    let mut s = write_sources(platform, &write_entries(platform, &files));
    s.append("\n");
    s
}

/// The texts between single quotes in `s`, from position `i` on.
pub open spec fn quoted_from(s: Seq<char>, i: int) -> Seq<Seq<char>>
    decreases s.len() - i,
    when 0 <= i
{
    match find_from(s, "'"@, i) {
        None => Seq::empty(),
        Some(a) => match find_from(s, "'"@, a + 1) {
            None => Seq::empty(),
            Some(b) => if i <= a && a < b && b < s.len() {
                seq![s.subrange(a + 1, b)] + quoted_from(s, b + 1)
            } else {
                Seq::empty()
            },
        },
    }
}

fn read_quoted(s: &str) -> (r: Vec<String>)
    ensures
        r.deep_view() == quoted_from(s@, 0),
{
    proof {
        reveal_strlit("'");
    }
    let mut out: Vec<String> = Vec::new();
    let mut i: usize = 0;
    let n: usize = s.unicode_len();
    assert(out.deep_view() + quoted_from(s@, 0) =~= quoted_from(s@, 0));
    loop
        invariant
            n == s@.len(),
            i <= n,
            "'"@.len() == 1,
            out.deep_view() + quoted_from(s@, i as int) == quoted_from(s@, 0),
        decreases n - i,
    {
        let ghost done = out.deep_view();
        let a: usize = match find_after(s, "'", i) {
            Some(a) => a,
            None => {
                assert(done + Seq::<Seq<char>>::empty() =~= done);
                return out;
            },
        };
        let b: usize = match find_after(s, "'", a + 1) {
            Some(b) => b,
            None => {
                assert(done + Seq::<Seq<char>>::empty() =~= done);
                return out;
            },
        };
        let piece = s.substring_char(a + 1, b).to_owned();
        let ghost rest = quoted_from(s@, b + 1);
        add_item(&mut out, piece);
        assert(done.push(piece@) + rest =~= done + (seq![piece@] + rest));
        i = b + 1;
    }
}

/// A stub entry that one of the interfaces supersedes.
pub open spec fn superseded(entry: Seq<char>, stems: Seq<Seq<char>>) -> bool {
    let base = after_last(entry, "/"@);
    ends(base, "_stub.cpp"@) && exists|i: int|
        0 <= i < stems.len() && implements_stem(
            before(base, base.len() - "_stub.cpp"@.len()),
            #[trigger] stems[i],
        )
}

/// The first `n` entries without superseded stubs.
pub open spec fn kept_upto(entries: Seq<Seq<char>>, stems: Seq<Seq<char>>, n: int) -> Seq<Seq<char>>
    decreases n,
{
    if n <= 0 {
        Seq::empty()
    } else {
        let done = kept_upto(entries, stems, n - 1);
        if superseded(entries[n - 1], stems) {
            done
        } else {
            done.push(entries[n - 1])
        }
    }
}

/// The list with the first `n` new entries added, each only where it is not
/// there yet.
pub open spec fn added_upto(list: Seq<Seq<char>>, new: Seq<Seq<char>>, n: int) -> Seq<Seq<char>>
    decreases n,
{
    if n <= 0 {
        list
    } else {
        let done = added_upto(list, new, n - 1);
        if done.contains(new[n - 1]) {
            done
        } else {
            done.push(new[n - 1])
        }
    }
}

/// The entries of a source list once new files are in it: superseded stubs
/// dropped, new ones added, in dictionary order.
pub open spec fn merged_entries(
    existing: Seq<Seq<char>>,
    stems: Seq<Seq<char>>,
    new: Seq<Seq<char>>,
) -> Seq<Seq<char>> {
    sorted(added_upto(kept_upto(existing, stems, existing.len() as int), new, new.len() as int))
}

/// How a platform's source list begins.
pub open spec fn list_opening(platform: Seq<char>) -> Seq<char> {
    sources_var(platform) + " = files("@
}

/// Where a platform's source list stands in a build file: from its name to the
/// closing bracket. Of several beginnings before that bracket, only the last is
/// closed by it. None where there is no list, or none that is closed.
pub open spec fn list_span(content: Seq<char>, platform: Seq<char>) -> Option<(int, int)> {
    match find_from(content, list_opening(platform), 0) {
        None => None,
        Some(first) => match find_from(content, ")"@, first) {
            None => None,
            Some(end) => match find_last(before(content, end), list_opening(platform)) {
                None => None,
                Some(start) => Some((start, end)),
            },
        },
    }
}

/// The build file with a platform's source list brought up to date.
pub open spec fn upserted(
    content: Seq<char>,
    platform: Seq<char>,
    stems: Seq<Seq<char>>,
    files: Seq<Seq<char>>,
) -> Seq<char> {
    let new = source_entries(platform, files);
    match list_span(content, platform) {
        None => content + sources_list(platform, merged_entries(Seq::empty(), stems, new)) + "\n"@,
        Some((start, end)) => before(content, start) + sources_list(
            platform,
            merged_entries(quoted_from(content.subrange(start, end), 0), stems, new),
        ) + after(content, end + 1),
    }
}

fn is_superseded(entry: &str, stems: &Vec<String>) -> (r: bool)
    ensures
        r == superseded(entry@, stems.deep_view()),
{
    proof {
        reveal_strlit("_stub.cpp");
    }
    let base = behind_last(entry, "/");
    if !ends_with(base, "_stub.cpp") {
        return false;
    }
    let n: usize = base.unicode_len() - 9;
    let stem = head_of(base, n);
    let ghost all = stems.deep_view();
    let mut i: usize = 0;
    while i < stems.len()
        invariant
            i <= stems@.len(),
            all == stems.deep_view(),
            base@ == after_last(entry@, "/"@),
            ends(base@, "_stub.cpp"@),
            stem@ == before(base@, base@.len() - "_stub.cpp"@.len()),
            forall|j: int| 0 <= j < i ==> !implements_stem(stem@, #[trigger] all[j]),
        decreases stems@.len() - i,
    {
        if file_implements_stem(stem, stems[i].as_str()) {
            assert(implements_stem(stem@, all[i as int]));
            return true;
        }
        i = i + 1;
    }
    false
}

fn merge_entries(existing: &Vec<String>, stems: &Vec<String>, new: &Vec<String>) -> (r: Vec<String>)
    ensures
        r.deep_view() == merged_entries(existing.deep_view(), stems.deep_view(), new.deep_view()),
{
    let mut out: Vec<String> = Vec::new();
    assert(out.deep_view() =~= Seq::empty());
    let mut i: usize = 0;
    while i < existing.len()
        invariant
            i <= existing@.len(),
            out.deep_view() == kept_upto(existing.deep_view(), stems.deep_view(), i as int),
        decreases existing@.len() - i,
    {
        if !is_superseded(existing[i].as_str(), stems) {
            add_item(&mut out, existing[i].clone());
        }
        i = i + 1;
    }
    let ghost kept = out.deep_view();
    let mut k: usize = 0;
    while k < new.len()
        invariant
            k <= new@.len(),
            out.deep_view() == added_upto(kept, new.deep_view(), k as int),
        decreases new@.len() - k,
    {
        if !list_has(&out, new[k].as_str()) {
            add_item(&mut out, new[k].clone());
        }
        k = k + 1;
    }
    sort(&out)
}

fn find_list(content: &str, platform: &str) -> (r: Option<(usize, usize)>)
    ensures
        (match r {
            Some((start, end)) => list_span(content@, platform@) == Some((start as int, end as int))
                && start <= end < content@.len(),
            None => list_span(content@, platform@) is None,
        }),
{
    proof {
        reveal_strlit(")");
    }
    let mut pattern = write_var(platform);
    pattern.append(" = files(");
    let first: usize = match find_after(content, pattern.as_str(), 0) {
        Some(k) => k,
        None => {
            return None;
        },
    };
    let end: usize = match find_after(content, ")", first) {
        Some(k) => k,
        None => {
            return None;
        },
    };
    match rfind(head_of(content, end), pattern.as_str()) {
        Some(start) => Some((start, end)),
        None => None,
    }
}

/// Brings a platform's implementation files into its source list: the list is
/// rewritten where it stands, stub entries superseded by the interfaces are
/// dropped and no entry is repeated; where there is no list, one is appended.
pub fn hal_meson_upsert_sources(
    meson_content: &str,
    platform: &str,
    interface_stems: &Vec<String>,
    cpp_file_names: &Vec<String>,
) -> (r: String)
    ensures
        r@ == upserted(
            meson_content@,
            platform@,
            interface_stems.deep_view(),
            cpp_file_names.deep_view(),
        ),
{
    let new = write_entries(platform, cpp_file_names);
    match find_list(meson_content, platform) {
        None => {
            let none: Vec<String> = Vec::new();
            assert(none.deep_view() =~= Seq::empty());
            let merged = merge_entries(&none, interface_stems, &new);
            let mut s = meson_content.to_owned();
            s.append(write_sources(platform, &merged).as_str());
            s.append("\n");
            s
        },
        Some((start, end)) => {
            let n: usize = meson_content.unicode_len();
            assert(end + 1 <= n);
            let existing = read_quoted(meson_content.substring_char(start, end));
            let merged = merge_entries(&existing, interface_stems, &new);
            let mut s = head_of(meson_content, start).to_owned();
            s.append(write_sources(platform, &merged).as_str());
            s.append(tail_of(meson_content, end + 1));
            s
        },
    }
}

/// The first `n` files that are pending stubs of the interface.
pub open spec fn stale_upto(
    files: Seq<(Seq<char>, Option<Seq<char>>)>,
    iface: Seq<char>,
    n: int,
) -> Seq<Seq<char>>
    decreases n,
{
    if n <= 0 {
        Seq::empty()
    } else {
        let done = stale_upto(files, iface, n - 1);
        let f = files[n - 1];
        if implements_stem(first_part(f.0), iface) && (f.1 matches Some(c) && is_stub_text(c)) {
            done.push(f.0)
        } else {
            done
        }
    }
}

/// The files of an implementation directory (name and, where readable, text)
/// that are to be removed once an interface has a real implementation: those
/// attributed to it that still are pending stubs.
pub fn remove_stale_hal_stubs(files: &Vec<(String, Option<String>)>, iface: &str) -> (r: Vec<String>)
    ensures
        r.deep_view() == stale_upto(files.deep_view(), iface@, files@.len() as int),
{
    let ghost all = files.deep_view();
    let mut out: Vec<String> = Vec::new();
    assert(out.deep_view() =~= Seq::empty());
    let mut i: usize = 0;
    while i < files.len()
        invariant
            i <= files@.len(),
            all == files.deep_view(),
            out.deep_view() == stale_upto(all, iface@, i as int),
        decreases files@.len() - i,
    {
        let parts = split(files[i].0.as_str(), '.');
        assert(parts.deep_view()[0] == parts[0]@);
        let stub = match &files[i].1 {
            Some(c) => is_hal_stub(c.as_str()),
            None => false,
        };
        if file_implements_stem(parts[0].as_str(), iface) && stub {
            add_item(&mut out, files[i].0.clone());
        }
        i = i + 1;
    }
    out
}

} // verus!

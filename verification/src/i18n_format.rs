//! Formatting of a translation file: the translations that the build recorded
//! (format metadata) are grouped by namespace, duplicates dropped, missing
//! translations marked, and translations that nothing uses kept and marked.
use vstd::prelude::*;

use crate::text::{push_char, str_eq};

verus! {

/// The format metadata version this library reads.
pub const METADATA_VERSION: u32 = 1;

/// One translation lookup recorded at build time.
pub struct FormatMetadataItemOwned {
    pub namespace: String,
    pub src: String,
    pub translated: Option<String>,
}

/// The translation lookups recorded at build time.
pub struct FormatMetadataOwned {
    pub version: u32,
    pub item: Vec<FormatMetadataItemOwned>,
}

/// The translations of one namespace (a TOML table), as source text and
/// translation, in the order the file's table is walked.
pub struct LocaleNamespace {
    pub name: String,
    pub entries: Vec<(String, String)>,
}

/// A translation file: its namespaces, in the order the file's tables are
/// walked. Unused translations are listed in this order.
pub type Locale = Vec<LocaleNamespace>;

/// One recorded translation lookup, borrowed.
pub struct FormatMetadataItem<'a> {
    pub namespace: &'a str,
    pub src: &'a str,
    pub translated: Option<&'a str>,
}

/// Recorded translation lookups, borrowed.
pub struct FormatMetadata<'a> {
    pub item: Vec<FormatMetadataItem<'a>>,
}

/// The TOML basic-string escape of one character.
pub open spec fn toml_escape_char(c: char) -> Seq<char> {
    if c == '\u{0008}' {
        seq!['\\', 'b']
    } else if c == '\t' {
        seq!['\\', 't']
    } else if c == '\n' {
        seq!['\\', 'n']
    } else if c == '\u{000C}' {
        seq!['\\', 'f']
    } else if c == '\r' {
        seq!['\\', 'r']
    } else if c == '"' {
        seq!['\\', '"']
    } else if c == '\\' {
        seq!['\\', '\\']
    } else {
        seq![c]
    }
}

/// The TOML basic-string escape of a string (each character escaped in turn).
pub open spec fn toml_escaped(s: Seq<char>) -> Seq<char>
    decreases s.len(),
{
    if s.len() == 0 {
        Seq::empty()
    } else {
        toml_escaped(s.drop_last()) + toml_escape_char(s.last())
    }
}

fn push_escaped_char(out: &mut String, c: char)
    ensures
        final(out)@ == old(out)@ + toml_escape_char(c),
{
    if c == '\u{0008}' {
        push_char(out, '\\');
        push_char(out, 'b');
    } else if c == '\t' {
        push_char(out, '\\');
        push_char(out, 't');
    } else if c == '\n' {
        push_char(out, '\\');
        push_char(out, 'n');
    } else if c == '\u{000C}' {
        push_char(out, '\\');
        push_char(out, 'f');
    } else if c == '\r' {
        push_char(out, '\\');
        push_char(out, 'r');
    } else if c == '"' {
        push_char(out, '\\');
        push_char(out, '"');
    } else if c == '\\' {
        push_char(out, '\\');
        push_char(out, '\\');
    } else {
        push_char(out, c);
    }
    assert(final(out)@ =~= old(out)@ + toml_escape_char(c));
}

fn push_toml_escaped(out: &mut String, s: &str)
    ensures
        final(out)@ == old(out)@ + toml_escaped(s@),
{
    let ghost start = out@;
    let n = s.unicode_len();
    let mut i: usize = 0;
    while i < n
        invariant
            n == s@.len(),
            i <= n,
            out@ == start + toml_escaped(s@.take(i as int)),
        decreases n - i,
    {
        push_escaped_char(out, s.get_char(i));
        proof {
            assert(s@.take(i + 1).drop_last() =~= s@.take(i as int));
            assert(start + toml_escaped(s@.take(i as int)) + toml_escape_char(s@[i as int]) =~= start
                + toml_escaped(s@.take(i + 1)));
        }
        i = i + 1;
    }
    assert(s@.take(n as int) =~= s@);
}

/// Escapes a string for use inside a TOML basic (double-quoted) string.
pub fn toml_str_escape(s: &str) -> (r: String)
    ensures
        r@ == toml_escaped(s@),
{
    let mut r = String::new();
    push_toml_escaped(&mut r, s);
    r
}

/// A line of the formatted file.
pub struct TransLine {
    pub src: Seq<char>,
    pub translated: Seq<char>,
    pub missing: bool,
    pub unused: bool,
}

/// `list` with `x` appended unless it is already there.
pub open spec fn distinct_push(list: Seq<Seq<char>>, x: Seq<char>) -> Seq<Seq<char>> {
    if list.contains(x) {
        list
    } else {
        list.push(x)
    }
}

/// `translation` first, then the namespaces of the recorded lookups in order of first appearance.
pub open spec fn meta_namespace_order(items: Seq<FormatMetadataItemOwned>) -> Seq<Seq<char>>
    decreases items.len(),
{
    if items.len() == 0 {
        seq!["translation"@]
    } else {
        distinct_push(meta_namespace_order(items.drop_last()), items.last().namespace@)
    }
}

/// Some recorded lookup is of `src` in namespace `ns`.
pub open spec fn meta_has(items: Seq<FormatMetadataItemOwned>, ns: Seq<char>, src: Seq<char>) -> bool {
    exists|i: int| 0 <= i < items.len() && #[trigger] items[i].namespace@ == ns && items[i].src@ == src
}

/// The entries of a namespace that no recorded lookup uses, as unused lines.
pub open spec fn unused_entries(
    entries: Seq<(String, String)>,
    items: Seq<FormatMetadataItemOwned>,
    ns: Seq<char>,
) -> Seq<TransLine>
    decreases entries.len(),
{
    if entries.len() == 0 {
        Seq::empty()
    } else {
        let rest = unused_entries(entries.drop_last(), items, ns);
        let e = entries.last();
        if !meta_has(items, ns, e.0@) {
            rest.push(TransLine { src: e.0@, translated: e.1@, missing: false, unused: true })
        } else {
            rest
        }
    }
}

/// All namespaces of the output: those of the recorded lookups, then the
/// namespaces of the file that have unused entries, in the order given.
pub open spec fn namespace_order(items: Seq<FormatMetadataItemOwned>, locale: Seq<LocaleNamespace>) -> Seq<
    Seq<char>,
>
    decreases locale.len(),
{
    if locale.len() == 0 {
        meta_namespace_order(items)
    } else {
        let acc = namespace_order(items, locale.drop_last());
        let l = locale.last();
        if unused_entries(l.entries@, items, l.name@).len() > 0 {
            distinct_push(acc, l.name@)
        } else {
            acc
        }
    }
}

/// Some line is for `src`.
pub open spec fn lines_have_src(lines: Seq<TransLine>, src: Seq<char>) -> bool {
    exists|j: int| 0 <= j < lines.len() && #[trigger] lines[j].src == src
}

/// The line of a recorded lookup.
pub open spec fn used_line(it: FormatMetadataItemOwned) -> TransLine {
    TransLine {
        src: it.src@,
        translated: match it.translated {
            Some(t) => t@,
            None => Seq::empty(),
        },
        missing: it.translated is None,
        unused: false,
    }
}

/// The lines of the recorded lookups in namespace `ns`, in order, each source text once.
pub open spec fn used_lines(items: Seq<FormatMetadataItemOwned>, ns: Seq<char>) -> Seq<TransLine>
    decreases items.len(),
{
    if items.len() == 0 {
        Seq::empty()
    } else {
        let acc = used_lines(items.drop_last(), ns);
        let it = items.last();
        if it.namespace@ == ns && !lines_have_src(acc, it.src@) {
            acc.push(used_line(it))
        } else {
            acc
        }
    }
}

/// The unused lines of namespace `ns` across the file.
pub open spec fn unused_lines(
    locale: Seq<LocaleNamespace>,
    items: Seq<FormatMetadataItemOwned>,
    ns: Seq<char>,
) -> Seq<TransLine>
    decreases locale.len(),
{
    if locale.len() == 0 {
        Seq::empty()
    } else {
        let acc = unused_lines(locale.drop_last(), items, ns);
        let l = locale.last();
        if l.name@ == ns {
            acc + unused_entries(l.entries@, items, ns)
        } else {
            acc
        }
    }
}

/// The text of one line: a comment prefix for unused or missing translations, then `"src" = "translated"`.
pub open spec fn line_text(line: TransLine, missing_sign: Option<Seq<char>>) -> Seq<char> {
    let prefix = if line.unused {
        "# (unused)\n"@
    } else if line.missing {
        match missing_sign {
            Some(sign) => "# "@ + sign + " # "@,
            None => "# "@,
        }
    } else {
        Seq::empty()
    };
    prefix + "\""@ + toml_escaped(line.src) + "\" = \""@ + toml_escaped(line.translated) + "\"\n"@
}

pub open spec fn lines_text(lines: Seq<TransLine>, missing_sign: Option<Seq<char>>) -> Seq<char>
    decreases lines.len(),
{
    if lines.len() == 0 {
        Seq::empty()
    } else {
        lines_text(lines.drop_last(), missing_sign) + line_text(lines.last(), missing_sign)
    }
}

/// The section of one namespace: `[ns]` then its used and unused lines.
pub open spec fn section_text(
    ns: Seq<char>,
    items: Seq<FormatMetadataItemOwned>,
    locale: Seq<LocaleNamespace>,
    missing_sign: Option<Seq<char>>,
) -> Seq<char> {
    "\n["@ + ns + "]\n"@ + lines_text(
        used_lines(items, ns) + unused_lines(locale, items, ns),
        missing_sign,
    )
}

pub open spec fn sections_text(
    order: Seq<Seq<char>>,
    items: Seq<FormatMetadataItemOwned>,
    locale: Seq<LocaleNamespace>,
    missing_sign: Option<Seq<char>>,
) -> Seq<char>
    decreases order.len(),
{
    if order.len() == 0 {
        Seq::empty()
    } else {
        sections_text(order.drop_last(), items, locale, missing_sign) + section_text(
            order.last(),
            items,
            locale,
            missing_sign,
        )
    }
}

/// The formatted translation file.
pub open spec fn formatted_text(
    items: Seq<FormatMetadataItemOwned>,
    locale: Seq<LocaleNamespace>,
    missing_sign: Option<Seq<char>>,
) -> Seq<char> {
    "# formatted by maomi-i18n-format\n"@ + sections_text(
        namespace_order(items, locale),
        items,
        locale,
        missing_sign,
    )
}

/// The view of an optional string slice.
pub open spec fn opt_str_view(s: Option<&str>) -> Option<Seq<char>> {
    match s {
        Some(x) => Some(x@),
        None => None,
    }
}

/// The views of a list of strings.
pub open spec fn strings_view(v: Seq<String>) -> Seq<Seq<char>> {
    v.map_values(|s: String| s@)
}

fn contains_string(v: &Vec<String>, s: &str) -> (r: bool)
    ensures
        r == strings_view(v@).contains(s@),
{
    let mut i: usize = 0;
    while i < v.len()
        invariant
            i <= v@.len(),
            forall|j: int| 0 <= j < i ==> v@[j]@ != s@,
        decreases v@.len() - i,
    {
        if str_eq(v[i].as_str(), s) {
            assert(strings_view(v@)[i as int] == s@);
            return true;
        }
        i = i + 1;
    }
    assert forall|j: int| 0 <= j < strings_view(v@).len() implies strings_view(v@)[j] != s@ by {
        assert(strings_view(v@)[j] == v@[j]@);
    }
    false
}

fn push_distinct(v: &mut Vec<String>, s: &str)
    ensures
        strings_view(final(v)@) == distinct_push(strings_view(old(v)@), s@),
{
    if !contains_string(v, s) {
        let mut t = String::new();
        t.append(s);
        v.push(t);
        assert(strings_view(v@) =~= strings_view(old(v)@).push(s@));
    }
}

fn meta_has_exec(items: &Vec<FormatMetadataItemOwned>, ns: &str, src: &str) -> (r: bool)
    ensures
        r == meta_has(items@, ns@, src@),
{
    let mut i: usize = 0;
    while i < items.len()
        invariant
            i <= items@.len(),
            forall|j: int| 0 <= j < i ==> !(#[trigger] items@[j].namespace@ == ns@ && items@[j].src@ == src@),
        decreases items@.len() - i,
    {
        if str_eq(items[i].namespace.as_str(), ns) && str_eq(items[i].src.as_str(), src) {
            return true;
        }
        i = i + 1;
    }
    false
}

fn has_unused_entry(l: &LocaleNamespace, items: &Vec<FormatMetadataItemOwned>) -> (r: bool)
    ensures
        r == (unused_entries(l.entries@, items@, l.name@).len() > 0),
{
    let mut k: usize = 0;
    let mut found = false;
    while k < l.entries.len()
        invariant
            k <= l.entries@.len(),
            found == (unused_entries(l.entries@.take(k as int), items@, l.name@).len() > 0),
        decreases l.entries@.len() - k,
    {
        let used = meta_has_exec(items, l.name.as_str(), l.entries[k].0.as_str());
        proof {
            assert(l.entries@.take(k + 1).drop_last() =~= l.entries@.take(k as int));
        }
        if !used {
            found = true;
        }
        k = k + 1;
    }
    assert(l.entries@.take(k as int) =~= l.entries@);
    found
}

/// The namespaces of the output, in order.
fn compute_namespace_order(items: &Vec<FormatMetadataItemOwned>, locale: &Vec<LocaleNamespace>) -> (r: Vec<String>)
    ensures
        strings_view(r@) == namespace_order(items@, locale@),
{
    let mut order: Vec<String> = Vec::new();
    let mut t = String::new();
    t.append("translation");
    order.push(t);
    assert(strings_view(order@) =~= seq!["translation"@]);
    let mut i: usize = 0;
    while i < items.len()
        invariant
            i <= items@.len(),
            strings_view(order@) == meta_namespace_order(items@.take(i as int)),
        decreases items@.len() - i,
    {
        push_distinct(&mut order, items[i].namespace.as_str());
        proof {
            assert(items@.take(i + 1).drop_last() =~= items@.take(i as int));
        }
        i = i + 1;
    }
    assert(items@.take(i as int) =~= items@);
    let mut j: usize = 0;
    while j < locale.len()
        invariant
            j <= locale@.len(),
            strings_view(order@) == namespace_order(items@, locale@.take(j as int)),
        decreases locale@.len() - j,
    {
        proof {
            assert(locale@.take(j + 1).drop_last() =~= locale@.take(j as int));
        }
        if has_unused_entry(&locale[j], items) {
            push_distinct(&mut order, locale[j].name.as_str());
        }
        j = j + 1;
    }
    assert(locale@.take(j as int) =~= locale@);
    order
}

fn push_line(
    out: &mut String,
    src: &str,
    translated: &str,
    missing: bool,
    unused: bool,
    missing_sign: Option<&str>,
)
    ensures
        final(out)@ == old(out)@ + line_text(
            TransLine { src: src@, translated: translated@, missing, unused },
            opt_str_view(missing_sign),
        ),
{
    let ghost start = out@;
    if unused {
        out.append("# (unused)\n");
    } else if missing {
        match missing_sign {
            Some(sign) => {
                out.append("# ");
                out.append(sign);
                out.append(" # ");
            },
            None => {
                out.append("# ");
            },
        }
    }
    let ghost mid = out@;
    out.append("\"");
    push_toml_escaped(out, src);
    out.append("\" = \"");
    push_toml_escaped(out, translated);
    out.append("\"\n");
    proof {
        let sign = opt_str_view(missing_sign);
        let line = TransLine { src: src@, translated: translated@, missing, unused };
        let prefix = if line.unused {
            "# (unused)\n"@
        } else if line.missing {
            match sign {
                Some(sg) => "# "@ + sg + " # "@,
                None => "# "@,
            }
        } else {
            Seq::empty()
        };
        assert(mid =~= start + prefix);
        assert(out@ =~= start + line_text(line, sign));
    }
}

/// Formats a translation file.
///
/// The output starts with a header comment, then one section per namespace:
/// `translation` first, then the namespaces of the recorded lookups in order of
/// first appearance, then those of the file that hold unused translations (in
/// the order given). Each
/// section lists its recorded lookups (each source text once, a missing
/// translation commented out and marked with `missing_sign` when given), then
/// the file's translations that no lookup used, commented as unused.
pub fn do_format(
    format_metadata: FormatMetadataOwned,
    src: Locale,
    missing_sign: Option<&str>,
) -> (r: String)
    ensures
        r@ == formatted_text(format_metadata.item@, src@, opt_str_view(missing_sign)),
{
    let ghost sign = opt_str_view(missing_sign);
    let items = &format_metadata.item;
    let locale = &src;
    let order = compute_namespace_order(items, locale);
    let mut out = String::new();
    out.append("# formatted by maomi-i18n-format\n");
    let ghost header = out@;
    let mut oi: usize = 0;
    while oi < order.len()
        invariant
            sign == opt_str_view(missing_sign),
            oi <= order@.len(),
            strings_view(order@) == namespace_order(items@, locale@),
            out@ == header + sections_text(strings_view(order@).take(oi as int), items@, locale@, sign),
            header == "# formatted by maomi-i18n-format\n"@,
        decreases order@.len() - oi,
    {
        let ns = order[oi].as_str();
        let ghost sec_start = out@;
        out.append("\n[");
        out.append(ns);
        out.append("]\n");
        let ghost lines_start = out@;
        // the recorded lookups of this namespace, each source text once
        let mut seen: Vec<String> = Vec::new();
        let mut i: usize = 0;
        assert(items@.take(0) =~= Seq::<FormatMetadataItemOwned>::empty());
        assert(strings_view(seen@) =~= Seq::<Seq<char>>::empty());
        while i < items.len()
            invariant
                sign == opt_str_view(missing_sign),
                i <= items@.len(),
                out@ == lines_start + lines_text(used_lines(items@.take(i as int), ns@), sign),
                forall|s: Seq<char>| strings_view(seen@).contains(s) == lines_have_src(
                    used_lines(items@.take(i as int), ns@),
                    s,
                ),
            decreases items@.len() - i,
        {
            let it = &items[i];
            let ghost acc = used_lines(items@.take(i as int), ns@);
            proof {
                assert(items@.take(i + 1).drop_last() =~= items@.take(i as int));
                assert(items@.take(i + 1).last() == items@[i as int]);
            }
            let take_it = str_eq(it.namespace.as_str(), ns) && !contains_string(&seen, it.src.as_str());
            proof {
                assert(take_it == (it.namespace@ == ns@ && !lines_have_src(acc, it.src@)));
                if take_it {
                    assert(used_lines(items@.take(i + 1), ns@) == acc.push(used_line(*it)));
                } else {
                    assert(used_lines(items@.take(i + 1), ns@) == acc);
                }
            }
            if take_it {
                let translated: &str = match &it.translated {
                    Some(t) => t.as_str(),
                    None => "",
                };
                proof {
                    if it.translated is None {
                        assert(translated@ =~= Seq::<char>::empty()) by {
                            reveal_strlit("");
                        }
                    }
                }
                let ghost out_before = out@;
                let missing = it.translated.is_none();
                assert(missing == (it.translated is None));
                push_line(&mut out, it.src.as_str(), translated, missing, false, missing_sign);

                let ghost seen_before = seen@;
                let mut t = String::new();
                t.append(it.src.as_str());
                seen.push(t);
                proof {
                    let line = used_line(*it);
                    assert(line == TransLine {
                        src: it.src@,
                        translated: translated@,
                        missing: it.translated is None,
                        unused: false,
                    });
                    assert(acc.push(line).drop_last() =~= acc);
                    assert(lines_text(acc.push(line), sign) == lines_text(acc, sign) + line_text(line, sign));
                    assert(out_before == lines_start + lines_text(acc, sign));
                    assert(out@ == out_before + line_text(line, sign));
                    assert(out@ =~= lines_start + lines_text(acc.push(line), sign));
                    let sv = strings_view(seen@);
                    let sb = strings_view(seen_before);
                    assert(sv =~= sb.push(it.src@));
                    assert forall|s: Seq<char>| sv.contains(s) == lines_have_src(acc.push(line), s) by {
                        if sv.contains(s) {
                            let j = choose|j: int| 0 <= j < sv.len() && sv[j] == s;
                            if j < sb.len() {
                                assert(sb[j] == s);
                                assert(sb.contains(s));
                                let k = choose|k: int| 0 <= k < acc.len() && #[trigger] acc[k].src == s;
                                assert(acc.push(line)[k].src == s);
                            } else {
                                assert(acc.push(line)[acc.len() as int].src == s);
                            }
                        }
                        if lines_have_src(acc.push(line), s) {
                            let j = choose|j: int| 0 <= j < acc.push(line).len() && #[trigger] acc.push(
                                line,
                            )[j].src == s;
                            if j < acc.len() {
                                assert(acc[j].src == s);
                                assert(lines_have_src(acc, s));
                                assert(sb.contains(s));
                                let k = choose|k: int| 0 <= k < sb.len() && sb[k] == s;
                                assert(sv[k] == s);
                            } else {
                                assert(sv[sb.len() as int] == s);
                            }
                        }
                    }
                }
            }
            i = i + 1;
        }
        proof {
            assert(items@.take(i as int) =~= items@);
        }
        let ghost used = used_lines(items@, ns@);
        // the file's translations of this namespace that nothing used
        let mut j: usize = 0;
        while j < locale.len()
            invariant
                sign == opt_str_view(missing_sign),
                j <= locale@.len(),
                out@ == lines_start + lines_text(used + unused_lines(locale@.take(j as int), items@, ns@), sign),
            decreases locale@.len() - j,
        {
            let l = &locale[j];
            let ghost acc = used + unused_lines(locale@.take(j as int), items@, ns@);
            proof {
                assert(locale@.take(j + 1).drop_last() =~= locale@.take(j as int));
                assert(locale@.take(j + 1).last() == locale@[j as int]);
            }
            if str_eq(l.name.as_str(), ns) {
                let mut k: usize = 0;
                while k < l.entries.len()
                    invariant
                        sign == opt_str_view(missing_sign),
                    sign == opt_str_view(missing_sign),
                sign == opt_str_view(missing_sign),
                        k <= l.entries@.len(),
                        l.name@ == ns@,
                        out@ == lines_start + lines_text(acc + unused_entries(l.entries@.take(k as int), items@, ns@), sign),
                    decreases l.entries@.len() - k,
                {
                    let e = &l.entries[k];
                    let ghost before = acc + unused_entries(l.entries@.take(k as int), items@, ns@);
                    proof {
                        assert(l.entries@.take(k + 1).drop_last() =~= l.entries@.take(k as int));
                        assert(l.entries@.take(k + 1).last() == l.entries@[k as int]);
                    }
                    if !meta_has_exec(items, ns, e.0.as_str()) {
                        push_line(&mut out, e.0.as_str(), e.1.as_str(), false, true, missing_sign);
                        proof {
                            let line = TransLine { src: e.0@, translated: e.1@, missing: false, unused: true };
                            assert(acc + unused_entries(l.entries@.take(k + 1), items@, ns@) =~= before.push(line));
                            assert(before.push(line).drop_last() =~= before);
                        }
                    } else {
                        proof {
                            assert(acc + unused_entries(l.entries@.take(k + 1), items@, ns@) =~= before);
                        }
                    }
                    k = k + 1;
                }
                proof {
                    assert(l.entries@.take(k as int) =~= l.entries@);
                    assert(used + unused_lines(locale@.take(j + 1), items@, ns@) =~= acc + unused_entries(
                        l.entries@,
                        items@,
                        ns@,
                    ));
                }
            } else {
                proof {
                    assert(used + unused_lines(locale@.take(j + 1), items@, ns@) =~= acc);
                }
            }
            j = j + 1;
        }
        proof {
            assert(locale@.take(j as int) =~= locale@);
            let order_v = strings_view(order@);
            assert(order_v[oi as int] == ns@);
            assert(order_v.take(oi + 1).drop_last() =~= order_v.take(oi as int));
            assert(order_v.take(oi + 1).last() == ns@);
            assert(out@ =~= sec_start + section_text(ns@, items@, locale@, sign));
        }
        oi = oi + 1;
    }
    proof {
        assert(strings_view(order@).take(oi as int) =~= strings_view(order@));
    }
    out
}

/// A character that TOML basic strings keep as it is.
pub open spec fn toml_plain_char(c: char) -> bool {
    c != '\u{0008}' && c != '\t' && c != '\n' && c != '\u{000C}' && c != '\r' && c != '"' && c
        != '\\'
}

/// Escaping leaves a string without special characters unchanged.
pub proof fn lemma_toml_escape_plain(s: Seq<char>)
    requires
        forall|i: int| 0 <= i < s.len() ==> toml_plain_char(#[trigger] s[i]),
    ensures
        toml_escaped(s) == s,
    decreases s.len(),
{
    if s.len() > 0 {
        lemma_toml_escape_plain(s.drop_last());
        assert(toml_escaped(s) =~= s);
    }
}

/// Escaping never shortens a string.
pub proof fn lemma_toml_escape_len(s: Seq<char>)
    ensures
        toml_escaped(s).len() >= s.len(),
    decreases s.len(),
{
    if s.len() > 0 {
        lemma_toml_escape_len(s.drop_last());
    }
}

/// The value of a hexadecimal digit.
pub open spec fn hex_digit(c: char) -> Option<int> {
    if '0' <= c <= '9' {
        Some(c as int - '0' as int)
    } else if 'a' <= c <= 'f' {
        Some(c as int - 'a' as int + 10)
    } else if 'A' <= c <= 'F' {
        Some(c as int - 'A' as int + 10)
    } else {
        None
    }
}

/// The value of a run of hexadecimal digits.
pub open spec fn hex_value(s: Seq<char>) -> Option<int>
    decreases s.len(),
{
    if s.len() == 0 {
        Some(0)
    } else {
        match (hex_value(s.drop_last()), hex_digit(s.last())) {
            (Some(v), Some(d)) => Some(v * 16 + d),
            _ => None,
        }
    }
}

/// The character of a Unicode scalar value.
pub open spec fn scalar_char(v: int) -> Option<char> {
    if (0 <= v < 0xD800) || (0xE000 <= v <= 0x10FFFF) {
        Some(v as char)
    } else {
        None
    }
}

/// A character that a TOML basic string cannot hold as it is: a control
/// character other than tab.
pub open spec fn toml_control_char(c: char) -> bool {
    (c as int) < 0x20 && c != '\t' || c == '\u{007F}'
}

/// The character that an escape `\x` stands for in a TOML basic string, for
/// the one-letter escapes.
pub open spec fn toml_escape_code(x: char) -> Option<char> {
    if x == 'b' {
        Some('\u{0008}')
    } else if x == 't' {
        Some('\t')
    } else if x == 'n' {
        Some('\n')
    } else if x == 'f' {
        Some('\u{000C}')
    } else if x == 'r' {
        Some('\r')
    } else if x == '"' {
        Some('"')
    } else if x == '\\' {
        Some('\\')
    } else {
        None
    }
}

/// The text that the body of a TOML basic string (what stands between its
/// quotes) stands for; `None` where it is not a valid body: a bare quote, a
/// control character other than tab, or an unknown or cut escape.
pub open spec fn toml_basic_unescape(s: Seq<char>) -> Option<Seq<char>>
    decreases s.len(),
{
    if s.len() == 0 {
        Some(Seq::empty())
    } else if s[0] == '\\' {
        if s.len() >= 2 && toml_escape_code(s[1]) is Some {
            match toml_basic_unescape(s.skip(2)) {
                Some(r) => Some(seq![toml_escape_code(s[1])->0] + r),
                None => None,
            }
        } else if s.len() >= 6 && s[1] == 'u' && hex_value(s.subrange(2, 6)) is Some && scalar_char(
            hex_value(s.subrange(2, 6))->0,
        ) is Some {
            match toml_basic_unescape(s.skip(6)) {
                Some(r) => Some(seq![scalar_char(hex_value(s.subrange(2, 6))->0)->0] + r),
                None => None,
            }
        } else if s.len() >= 10 && s[1] == 'U' && hex_value(s.subrange(2, 10)) is Some
            && scalar_char(hex_value(s.subrange(2, 10))->0) is Some {
            match toml_basic_unescape(s.skip(10)) {
                Some(r) => Some(seq![scalar_char(hex_value(s.subrange(2, 10))->0)->0] + r),
                None => None,
            }
        } else {
            None
        }
    } else if s[0] == '"' || toml_control_char(s[0]) {
        None
    } else {
        match toml_basic_unescape(s.drop_first()) {
            Some(r) => Some(seq![s[0]] + r),
            None => None,
        }
    }
}

/// Escaping a string character by character from the front.
proof fn lemma_toml_escaped_front(s: Seq<char>)
    requires
        s.len() > 0,
    ensures
        toml_escaped(s) == toml_escape_char(s[0]) + toml_escaped(s.drop_first()),
    decreases s.len(),
{
    if s.len() > 1 {
        lemma_toml_escaped_front(s.drop_last());
        assert(s.drop_last().drop_first() =~= s.drop_first().drop_last());
        assert(s.drop_last()[0] == s[0]);
        assert(s.drop_first().last() == s.last());
        assert(toml_escaped(s) =~= toml_escape_char(s[0]) + toml_escaped(s.drop_first()));
    } else {
        assert(s.drop_first() =~= Seq::<char>::empty());
        assert(s.drop_last() =~= Seq::<char>::empty());
        assert(toml_escaped(s.drop_last()) =~= Seq::<char>::empty());
        assert(toml_escaped(s.drop_first()) =~= Seq::<char>::empty());
        assert(s.last() == s[0]);
        assert(toml_escaped(s) =~= toml_escape_char(s[0]));
    }
}

/// Unescaping the escape of one character, then the rest.
proof fn lemma_toml_unescape_char(c: char, t: Seq<char>)
    requires
        !toml_control_char(c) || c == '\u{0008}' || c == '\n' || c == '\u{000C}' || c == '\r',
    ensures
        toml_basic_unescape(toml_escape_char(c) + t) == (match toml_basic_unescape(t) {
            Some(r) => Some(seq![c] + r),
            None => None::<Seq<char>>,
        }),
{
    let e = toml_escape_char(c) + t;
    if toml_plain_char(c) {
        assert(e.drop_first() =~= t);
    } else {
        assert(e.skip(2) =~= t);
    }
}

/// TOML basic-string unescaping undoes `toml_str_escape`, on strings that
/// hold no control character other than those it escapes.
pub proof fn lemma_toml_escape_round_trip(s: Seq<char>)
    requires
        forall|i: int|
            0 <= i < s.len() ==> !toml_control_char(#[trigger] s[i]) || s[i] == '\u{0008}' || s[i]
                == '\n' || s[i] == '\u{000C}' || s[i] == '\r',
    ensures
        toml_basic_unescape(toml_escaped(s)) == Some(s),
    decreases s.len(),
{
    if s.len() == 0 {
        assert(toml_escaped(s) =~= Seq::<char>::empty());
    } else {
        lemma_toml_escaped_front(s);
        lemma_toml_escape_round_trip(s.drop_first());
        lemma_toml_unescape_char(s[0], toml_escaped(s.drop_first()));
        assert(seq![s[0]] + s.drop_first() =~= s);
    }
}

proof fn lemma_meta_order_first(items: Seq<FormatMetadataItemOwned>)
    ensures
        meta_namespace_order(items).len() >= 1,
        meta_namespace_order(items)[0] == "translation"@,
    decreases items.len(),
{
    if items.len() > 0 {
        lemma_meta_order_first(items.drop_last());
    }
}

/// The `translation` section always comes first, whatever was recorded and
/// whatever the file holds.
pub proof fn lemma_translation_first(items: Seq<FormatMetadataItemOwned>, locale: Seq<LocaleNamespace>)
    ensures
        namespace_order(items, locale).len() >= 1,
        namespace_order(items, locale)[0] == "translation"@,
    decreases locale.len(),
{
    if locale.len() == 0 {
        lemma_meta_order_first(items);
    } else {
        lemma_translation_first(items, locale.drop_last());
    }
}

/// The unused line of an entry that no lookup uses.
pub open spec fn unused_line_of(e: (String, String)) -> TransLine {
    TransLine { src: e.0@, translated: e.1@, missing: false, unused: true }
}

/// An entry of a namespace that no lookup of that namespace uses is among
/// the unused entries.
proof fn lemma_unused_entry_listed(entries: Seq<(String, String)>, items: Seq<FormatMetadataItemOwned>, ns: Seq<char>, j: int)
    requires
        0 <= j < entries.len(),
        !meta_has(items, ns, entries[j].0@),
    ensures
        unused_entries(entries, items, ns).contains(unused_line_of(entries[j])),
    decreases entries.len(),
{
    let rest = unused_entries(entries.drop_last(), items, ns);
    if j == entries.len() - 1 {
        assert(unused_entries(entries, items, ns).last() == unused_line_of(entries[j]));
    } else {
        lemma_unused_entry_listed(entries.drop_last(), items, ns, j);
        let k = choose|k: int| 0 <= k < rest.len() && rest[k] == unused_line_of(entries[j]);
        assert(unused_entries(entries, items, ns)[k] == unused_line_of(entries[j]));
    }
}

/// The unused entries of namespace `ns` at position `i` of the file are
/// among the unused lines of `ns`.
proof fn lemma_unused_lines_listed(
    locale: Seq<LocaleNamespace>,
    items: Seq<FormatMetadataItemOwned>,
    i: int,
    line: TransLine,
)
    requires
        0 <= i < locale.len(),
        unused_entries(locale[i].entries@, items, locale[i].name@).contains(line),
    ensures
        unused_lines(locale, items, locale[i].name@).contains(line),
    decreases locale.len(),
{
    let ns = locale[i].name@;
    let acc = unused_lines(locale.drop_last(), items, ns);
    if i == locale.len() - 1 {
        let u = unused_entries(locale[i].entries@, items, ns);
        let k = choose|k: int| 0 <= k < u.len() && u[k] == line;
        assert((acc + u)[acc.len() + k] == line);
    } else {
        assert(locale.drop_last()[i] == locale[i]);
        lemma_unused_lines_listed(locale.drop_last(), items, i, line);
        let k = choose|k: int| 0 <= k < acc.len() && acc[k] == line;
        if locale.last().name@ == ns {
            assert((acc + unused_entries(locale.last().entries@, items, ns))[k] == line);
        }
    }
}

/// A namespace of the file with an unused entry is in the output's order.
proof fn lemma_namespace_listed(locale: Seq<LocaleNamespace>, items: Seq<FormatMetadataItemOwned>, i: int)
    requires
        0 <= i < locale.len(),
        unused_entries(locale[i].entries@, items, locale[i].name@).len() > 0,
    ensures
        namespace_order(items, locale).contains(locale[i].name@),
    decreases locale.len(),
{
    let acc = namespace_order(items, locale.drop_last());
    let ns = locale[i].name@;
    if i == locale.len() - 1 {
        if !acc.contains(ns) {
            assert(acc.push(ns)[acc.len() as int] == ns);
        }
    } else {
        assert(locale.drop_last()[i] == locale[i]);
        lemma_namespace_listed(locale.drop_last(), items, i);
        let k = choose|k: int| 0 <= k < acc.len() && acc[k] == ns;
        assert(distinct_push(acc, locale.last().name@)[k] == ns);
    }
}

/// The text of a list of lines holds the text of each of them.
proof fn lemma_lines_text_holds(lines: Seq<TransLine>, k: int, missing_sign: Option<Seq<char>>) -> (r: (
    Seq<char>,
    Seq<char>,
))
    requires
        0 <= k < lines.len(),
    ensures
        lines_text(lines, missing_sign) == r.0 + line_text(lines[k], missing_sign) + r.1,
    decreases lines.len(),
{
    if k == lines.len() - 1 {
        (lines_text(lines.drop_last(), missing_sign), Seq::empty())
    } else {
        let (a, b) = lemma_lines_text_holds(lines.drop_last(), k, missing_sign);
        assert(lines.drop_last()[k] == lines[k]);
        let b2 = b + line_text(lines.last(), missing_sign);
        assert(lines_text(lines, missing_sign) =~= a + line_text(lines[k], missing_sign) + b2);
        (a, b2)
    }
}

/// The text of the sections holds the section of each namespace in the order.
proof fn lemma_sections_text_holds(
    order: Seq<Seq<char>>,
    m: int,
    items: Seq<FormatMetadataItemOwned>,
    locale: Seq<LocaleNamespace>,
    missing_sign: Option<Seq<char>>,
) -> (r: (Seq<char>, Seq<char>))
    requires
        0 <= m < order.len(),
    ensures
        sections_text(order, items, locale, missing_sign) == r.0 + section_text(order[m], items, locale, missing_sign)
            + r.1,
    decreases order.len(),
{
    if m == order.len() - 1 {
        (sections_text(order.drop_last(), items, locale, missing_sign), Seq::empty())
    } else {
        let (a, b) = lemma_sections_text_holds(order.drop_last(), m, items, locale, missing_sign);
        assert(order.drop_last()[m] == order[m]);
        let b2 = b + section_text(order.last(), items, locale, missing_sign);
        assert(sections_text(order, items, locale, missing_sign) =~= a + section_text(
            order[m],
            items,
            locale,
            missing_sign,
        ) + b2);
        (a, b2)
    }
}

/// Formatting keeps every entry of the translation file: an entry `"k" =
/// "v"` of namespace `ns` that no recorded lookup of `ns` itself uses (a
/// lookup of the same text in another namespace does not count) stays in the
/// output, in the section `[ns]`, as the line `"k" = "v"` marked
/// `# (unused)`. The result gives the text before the section header, the
/// text between the header and the line, and the text after the line.
#[verifier::rlimit(50)]
pub proof fn lemma_unused_entry_kept(
    items: Seq<FormatMetadataItemOwned>,
    locale: Seq<LocaleNamespace>,
    missing_sign: Option<Seq<char>>,
    i: int,
    j: int,
) -> (r: (Seq<char>, Seq<char>, Seq<char>))
    requires
        0 <= i < locale.len(),
        0 <= j < locale[i].entries@.len(),
        forall|m: int|
            0 <= m < items.len() ==> !(#[trigger] items[m].namespace@ == locale[i].name@ && items[m].src@
                == locale[i].entries@[j].0@),
    ensures
        formatted_text(items, locale, missing_sign) == r.0 + "\n["@ + locale[i].name@ + "]\n"@ + r.1
            + "# (unused)\n"@ + "\""@ + toml_escaped(locale[i].entries@[j].0@) + "\" = \""@ + toml_escaped(
            locale[i].entries@[j].1@,
        ) + "\"\n"@ + r.2,
        namespace_order(items, locale).contains(locale[i].name@),
        unused_lines(locale, items, locale[i].name@).contains(unused_line_of(locale[i].entries@[j])),
{
    let ns = locale[i].name@;
    let e = locale[i].entries@[j];
    let line = unused_line_of(e);
    lemma_unused_entry_listed(locale[i].entries@, items, ns, j);
    lemma_unused_lines_listed(locale, items, i, line);
    lemma_namespace_listed(locale, items, i);
    let order = namespace_order(items, locale);
    let m = choose|m: int| 0 <= m < order.len() && order[m] == ns;
    let (sa, sb) = lemma_sections_text_holds(order, m, items, locale, missing_sign);
    let ul = unused_lines(locale, items, ns);
    let k = choose|k: int| 0 <= k < ul.len() && ul[k] == line;
    let lines = used_lines(items, ns) + ul;
    assert(lines[used_lines(items, ns).len() + k] == line);
    let (la, lb) = lemma_lines_text_holds(lines, used_lines(items, ns).len() + k, missing_sign);
    let pre = "# formatted by maomi-i18n-format\n"@ + sa;
    let lt = "# (unused)\n"@ + "\""@ + toml_escaped(e.0@) + "\" = \""@ + toml_escaped(e.1@) + "\"\n"@;
    assert(line_text(line, missing_sign) =~= lt);
    let lt_all = lines_text(lines, missing_sign);
    assert(lt_all == la + lt + lb);
    let head = "\n["@ + ns + "]\n"@;
    let sec = section_text(ns, items, locale, missing_sign);
    assert(sec == head + lt_all);
    let hdr = "# formatted by maomi-i18n-format\n"@;
    assert(formatted_text(items, locale, missing_sign) == hdr + (sa + sec + sb));
    assert(hdr + (sa + sec + sb) =~= pre + head + la + lt + (lb + sb));
    (pre, la, lb + sb)
}

/// The namespace of each recorded lookup is in the lookups' namespace order.
proof fn lemma_meta_order_has(items: Seq<FormatMetadataItemOwned>, m: int)
    requires
        0 <= m < items.len(),
    ensures
        meta_namespace_order(items).contains(items[m].namespace@),
    decreases items.len(),
{
    let acc = meta_namespace_order(items.drop_last());
    let ns = items[m].namespace@;
    if m == items.len() - 1 {
        if !acc.contains(ns) {
            assert(acc.push(ns)[acc.len() as int] == ns);
        }
    } else {
        assert(items.drop_last()[m] == items[m]);
        lemma_meta_order_has(items.drop_last(), m);
        let k = choose|k: int| 0 <= k < acc.len() && acc[k] == ns;
        assert(distinct_push(acc, items.last().namespace@)[k] == ns);
    }
}

/// The output's namespace order keeps every namespace of the lookups.
proof fn lemma_order_keeps_meta(items: Seq<FormatMetadataItemOwned>, locale: Seq<LocaleNamespace>, ns: Seq<char>)
    requires
        meta_namespace_order(items).contains(ns),
    ensures
        namespace_order(items, locale).contains(ns),
    decreases locale.len(),
{
    if locale.len() > 0 {
        lemma_order_keeps_meta(items, locale.drop_last(), ns);
        let acc = namespace_order(items, locale.drop_last());
        let k = choose|k: int| 0 <= k < acc.len() && acc[k] == ns;
        assert(distinct_push(acc, locale.last().name@)[k] == ns);
    }
}

/// The used lines of a namespace: none is marked unused, and there is one
/// for the text of each lookup of the namespace.
proof fn lemma_used_line_listed(items: Seq<FormatMetadataItemOwned>, ns: Seq<char>, m: int)
    requires
        0 <= m < items.len(),
        items[m].namespace@ == ns,
    ensures
        forall|j: int| 0 <= j < used_lines(items, ns).len() ==> !(#[trigger] used_lines(items, ns)[j]).unused,
        lines_have_src(used_lines(items, ns), items[m].src@),
    decreases items.len(),
{
    let acc = used_lines(items.drop_last(), ns);
    let it = items.last();
    if m < items.len() - 1 {
        assert(items.drop_last()[m] == items[m]);
        lemma_used_line_listed(items.drop_last(), ns, m);
    }
    lemma_used_lines_all_used(items, ns);
    if m == items.len() - 1 {
        if !lines_have_src(acc, it.src@) {
            assert(acc.push(used_line(it))[acc.len() as int].src == it.src@);
        }
    } else {
        let j = choose|j: int| 0 <= j < acc.len() && #[trigger] acc[j].src == items[m].src@;
        if it.namespace@ == ns && !lines_have_src(acc, it.src@) {
            assert(acc.push(used_line(it))[j].src == items[m].src@);
        }
    }
}

/// No used line is marked unused.
proof fn lemma_used_lines_all_used(items: Seq<FormatMetadataItemOwned>, ns: Seq<char>)
    ensures
        forall|j: int| 0 <= j < used_lines(items, ns).len() ==> !(#[trigger] used_lines(items, ns)[j]).unused,
    decreases items.len(),
{
    if items.len() > 0 {
        lemma_used_lines_all_used(items.drop_last(), ns);
        let acc = used_lines(items.drop_last(), ns);
        let it = items.last();
        if it.namespace@ == ns && !lines_have_src(acc, it.src@) {
            assert forall|j: int| 0 <= j < acc.push(used_line(it)).len() implies !(#[trigger] acc.push(
                used_line(it),
            )[j]).unused by {
                if j < acc.len() {
                    assert(acc.push(used_line(it))[j] == acc[j]);
                }
            }
        }
    }
}

/// Formatting keeps every recorded lookup: the text looked up in namespace
/// `ns` has a line of its own, not marked unused, in the section `[ns]` of
/// the output. The result gives the text before the section header, the
/// text between the header and the line, the line and the text after it.
#[verifier::rlimit(50)]
pub proof fn lemma_lookup_kept(
    items: Seq<FormatMetadataItemOwned>,
    locale: Seq<LocaleNamespace>,
    missing_sign: Option<Seq<char>>,
    m: int,
) -> (r: (Seq<char>, Seq<char>, TransLine, Seq<char>))
    requires
        0 <= m < items.len(),
    ensures
        formatted_text(items, locale, missing_sign) == r.0 + "\n["@ + items[m].namespace@ + "]\n"@ + r.1
            + line_text(r.2, missing_sign) + r.3,
        r.2.src == items[m].src@,
        !r.2.unused,
        namespace_order(items, locale).contains(items[m].namespace@),
{
    let ns = items[m].namespace@;
    lemma_meta_order_has(items, m);
    lemma_order_keeps_meta(items, locale, ns);
    lemma_used_line_listed(items, ns, m);
    let order = namespace_order(items, locale);
    let k = choose|k: int| 0 <= k < order.len() && order[k] == ns;
    let (sa, sb) = lemma_sections_text_holds(order, k, items, locale, missing_sign);
    let ul = used_lines(items, ns);
    let j = choose|j: int| 0 <= j < ul.len() && #[trigger] ul[j].src == items[m].src@;
    let line = ul[j];
    let lines = ul + unused_lines(locale, items, ns);
    assert(lines[j] == line);
    let (la, lb) = lemma_lines_text_holds(lines, j, missing_sign);
    let lt_all = lines_text(lines, missing_sign);
    let head = "\n["@ + ns + "]\n"@;
    let sec = section_text(ns, items, locale, missing_sign);
    assert(sec == head + lt_all);
    let hdr = "# formatted by maomi-i18n-format\n"@;
    let pre = hdr + sa;
    assert(formatted_text(items, locale, missing_sign) == hdr + (sa + sec + sb));
    assert(hdr + (sa + sec + sb) =~= pre + head + la + line_text(line, missing_sign) + (lb + sb));
    (pre, la, line, lb + sb)
}

} // verus!

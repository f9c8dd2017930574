//! Versions, updates and links: what the about panel shows.

use vstd::prelude::*;
use crate::interaction;
use crate::json;
use crate::json::{parse_stored, text_field, Json, JsonView};
use crate::text;
use crate::text::{cat2, cat3, chars_of, decimal, has_prefix, parse_number, same, split_text};
use crate::text::{text_between, trim};

verus! {

broadcast use crate::json::group_json;

/// How much of a release's notes is shown.
pub const NOTES_LIMIT: usize = 800;

/// How long the question for updates waits, in seconds.
pub const REQUEST_TIMEOUT_S: u64 = 10;

/// The project's page.
pub fn repo_url() -> (r: String)
    ensures
        r@ == "https://github.com/HonorVanEr/pomodoro-fluent"@,
{
    "https://github.com/HonorVanEr/pomodoro-fluent".to_owned()
}

// ---------------------------------------------------------------------------
// Versions
// ---------------------------------------------------------------------------

/// A text without one leading `v` or `V`.
pub open spec fn without_v(s: Seq<char>) -> Seq<char> {
    if s.len() > 0 && (s[0] == 'v' || s[0] == 'V') {
        s.skip(1)
    } else {
        s
    }
}

fn strip_v(s: &str) -> (r: String)
    ensures
        r@ == without_v(s@),
{
    let v = chars_of(s);
    if v.len() > 0 && (v[0] == 'v' || v[0] == 'V') {
        assert(v@.subrange(1, v@.len() as int) =~= s@.skip(1));
        text_between(&v, 1, v.len())
    } else {
        assert(v@.subrange(0, v@.len() as int) =~= s@);
        text_between(&v, 0, v.len())
    }
}

/// Whether a character is a decimal digit.
pub open spec fn is_digit(c: char) -> bool {
    '0' <= c <= '9'
}

/// The decimal digits that a text begins with.
pub open spec fn leading_digits(s: Seq<char>) -> Seq<char>
    decreases s.len(),
{
    if s.len() == 0 || !is_digit(s[0]) {
        Seq::empty()
    } else {
        seq![s[0]] + leading_digits(s.drop_first())
    }
}

/// The number that a segment of a version begins with; none where it begins with
/// no digit, or with a number beyond 64 bits.
pub open spec fn segment_number(seg: Seq<char>) -> Option<int> {
    if leading_digits(seg).len() == 0 {
        None
    } else {
        text::number_of(leading_digits(seg), 10, u64::MAX as int)
    }
}

/// The numbers of the segments, up to the first that gives none.
pub open spec fn numbers_of(segs: Seq<Seq<char>>) -> Seq<int>
    decreases segs.len(),
{
    if segs.len() == 0 {
        Seq::empty()
    } else {
        match segment_number(segs[0]) {
            Some(n) => seq![n] + numbers_of(segs.drop_first()),
            None => Seq::empty(),
        }
    }
}

/// A version's numbers: `v1.1.3-beta` has 1, 1 and 3. One without a number has 0.
pub open spec fn version_of(v: Seq<char>) -> Seq<int> {
    let n = numbers_of(text::split_by(without_v(text::trimmed(v)), "."@));
    if n.len() == 0 {
        seq![0]
    } else {
        n
    }
}

/// The model of a list of numbers.
pub open spec fn ints(v: Seq<u64>) -> Seq<int> {
    v.map_values(|n: u64| n as int)
}

fn read_segment(seg: &str) -> (r: Option<u64>)
    ensures
        match r {
            Some(n) => segment_number(seg@) == Some(n as int),
            None => segment_number(seg@) is None,
        },
{
    let v = chars_of(seg);
    let mut k: usize = 0;
    assert(seg@.skip(0) =~= seg@);
    assert(seg@.take(0) + leading_digits(seg@) =~= leading_digits(seg@));
    while k < v.len() && '0' <= v[k] && v[k] <= '9'
        invariant
            k <= v@.len(),
            v@ == seg@,
            leading_digits(seg@) == seg@.take(k as int) + leading_digits(seg@.skip(k as int)),
        decreases v.len() - k,
    {
        proof {
            let rest = seg@.skip(k as int);
            assert(rest[0] == v@[k as int]);
            assert(rest.drop_first() =~= seg@.skip(k as int + 1));
            assert(seg@.take(k as int) + (seq![rest[0]] + leading_digits(seg@.skip(k as int + 1)))
                =~= seg@.take(k as int + 1) + leading_digits(seg@.skip(k as int + 1)));
        }
        k += 1;
    }
    proof {
        let rest = seg@.skip(k as int);
        if k < v@.len() {
            assert(rest[0] == v@[k as int]);
        }
        assert(leading_digits(rest) =~= Seq::empty());
        assert(leading_digits(seg@) =~= seg@.take(k as int));
    }
    if k == 0 {
        return None;
    }
    let digits = text_between(&v, 0, k);
    assert(v@.subrange(0, k as int) =~= seg@.take(k as int));
    parse_number(digits.as_str(), 10, 0xFFFF_FFFF_FFFF_FFFF)
}

/// A version's numbers.
pub fn parse_version(v: &str) -> (r: Vec<u64>)
    ensures
        ints(r@) == version_of(v@),
        r@.len() > 0,
{
    let bare = strip_v(trim(v).as_str());
    proof {
        reveal_strlit(".");
        assert("."@.len() == 1);
    }
    let segs = split_text(bare.as_str(), ".");
    let ghost sv = text::texts(segs@);
    let mut out: Vec<u64> = Vec::new();
    let mut i: usize = 0;
    let mut open = true;
    assert(sv.skip(0) =~= sv);
    assert(ints(out@) + numbers_of(sv) =~= numbers_of(sv));
    while i < segs.len() && open
        invariant
            i <= segs@.len(),
            sv == text::texts(segs@),
            open ==> numbers_of(sv) == ints(out@) + numbers_of(sv.skip(i as int)),
            !open ==> numbers_of(sv) == ints(out@),
        decreases segs.len() - i + (if open {
            1int
        } else {
            0int
        }),
    {
        let ghost rest = sv.skip(i as int);
        assert(rest[0] == segs@[i as int]@);
        assert(rest.drop_first() =~= sv.skip(i as int + 1));
        match read_segment(segs[i].as_str()) {
            Some(n) => {
                let ghost before = ints(out@);
                out.push(n);
                assert(ints(out@) =~= before.push(n as int));
                assert(before + (seq![n as int] + numbers_of(sv.skip(i as int + 1))) =~= ints(out@)
                    + numbers_of(sv.skip(i as int + 1)));
                i += 1;
            },
            None => {
                assert(numbers_of(rest) =~= Seq::empty());
                assert(ints(out@) + numbers_of(rest) =~= ints(out@));
                open = false;
            },
        }
    }
    proof {
        if open {
            assert(numbers_of(sv.skip(i as int)) =~= Seq::empty());
            assert(ints(out@) + numbers_of(sv.skip(i as int)) =~= ints(out@));
        }
    }
    if out.len() == 0 {
        out.push(0);
        assert(ints(out@) =~= seq![0]);
    }
    out
}

/// The number at a place of a version, 0 beyond its end.
pub open spec fn at_place(v: Seq<int>, i: int) -> int {
    if i < v.len() {
        v[i]
    } else {
        0
    }
}

/// The order of two versions from place `i` to place `n`: 1 where the first is
/// greater, -1 where it is smaller, 0 where they are equal.
pub open spec fn order_from(a: Seq<int>, b: Seq<int>, i: int, n: int) -> int
    decreases n - i,
{
    if i >= n {
        0
    } else if at_place(a, i) > at_place(b, i) {
        1
    } else if at_place(a, i) < at_place(b, i) {
        -1
    } else {
        order_from(a, b, i + 1, n)
    }
}

/// The longer length.
pub open spec fn longer(a: Seq<int>, b: Seq<int>) -> int {
    if a.len() > b.len() {
        a.len() as int
    } else {
        b.len() as int
    }
}

/// The order of two versions, number by number; what one lacks counts as 0.
pub open spec fn order(a: Seq<int>, b: Seq<int>) -> int {
    order_from(a, b, 0, longer(a, b))
}

/// The order of two versions: 1 where the first is greater, -1 where it is
/// smaller, 0 where they are equal.
pub fn compare_version(a: &str, b: &str) -> (r: i32)
    ensures
        r == order(version_of(a@), version_of(b@)),
{
    let pa = parse_version(a);
    let pb = parse_version(b);
    let n: usize = if pa.len() > pb.len() {
        pa.len()
    } else {
        pb.len()
    };
    let ghost (va, vb) = (ints(pa@), ints(pb@));
    let mut i: usize = 0;
    while i < n
        invariant
            i <= n,
            va == ints(pa@),
            vb == ints(pb@),
            va == version_of(a@),
            vb == version_of(b@),
            n == longer(va, vb),
            order(va, vb) == order_from(va, vb, i as int, n as int),
        decreases n - i,
    {
        let x: u64 = if i < pa.len() {
            pa[i]
        } else {
            0
        };
        let y: u64 = if i < pb.len() {
            pb[i]
        } else {
            0
        };
        assert(x == at_place(va, i as int));
        assert(y == at_place(vb, i as int));
        if x > y {
            return 1;
        }
        if x < y {
            return -1;
        }
        i += 1;
    }
    0
}

// ---------------------------------------------------------------------------
// Updates
// ---------------------------------------------------------------------------

/// What a status of the release page means, in words; none where it is no error.
pub fn release_error(status: i32) -> (r: Option<String>)
    ensures
        interaction::opt_text(r) == (if status == 403 {
            Some("GitHub 接口限流，稍后再试"@)
        } else if status == 404 {
            Some("仓库还没有 release"@)
        } else if status >= 400 {
            Some("GitHub 返回 "@ + text::int_text(status as int))
        } else {
            None
        }),
{
    if status == 403 {
        Some("GitHub 接口限流，稍后再试".to_owned())
    } else if status == 404 {
        Some("仓库还没有 release".to_owned())
    } else if status >= 400 {
        Some(cat2("GitHub 返回 ", decimal(status as u64).as_str()))
    } else {
        None
    }
}

/// The report that nothing could be found out.
pub open spec fn failure(error: Seq<char>) -> JsonView {
    JsonView::object().with("ok"@, JsonView::Bool(false)).with("error"@, JsonView::Str(error))
}

fn report_failure(error: &str) -> (r: Json)
    ensures
        r@ == failure(error@),
{
    Json::object().with("ok", Json::Bool(false)).with("error", Json::text(error))
}

/// A release's notes: trimmed, and not more than so many characters.
pub open spec fn notes_of(body: Seq<char>) -> Seq<char> {
    let t = text::trimmed(body);
    if t.len() > NOTES_LIMIT {
        t.take(NOTES_LIMIT as int)
    } else {
        t
    }
}

/// What is reported of the latest release.
pub open spec fn update_of(current: Seq<char>, data: JsonView) -> JsonView {
    let latest = without_v(interaction::named(data, "tag_name"@));
    if latest.len() == 0 {
        failure("没读到 release 版本号"@)
    } else {
        JsonView::object().with("ok"@, JsonView::Bool(true)).with(
            "currentVersion"@,
            JsonView::Str(current),
        ).with("latestVersion"@, JsonView::Str(latest)).with(
            "hasUpdate"@,
            JsonView::Bool(order(version_of(current), version_of(latest)) < 0),
        ).with(
            "releaseUrl"@,
            JsonView::Str(
                match data.text_field("html_url"@) {
                    Some(u) => u,
                    None => "https://github.com/HonorVanEr/pomodoro-fluent"@ + "/releases/latest"@,
                },
            ),
        ).with("publishedAt"@, JsonView::Str(interaction::named(data, "published_at"@))).with(
            "notes"@,
            JsonView::Str(notes_of(interaction::named(data, "body"@))),
        )
    }
}

fn text_or_empty(v: &Json, k: &str) -> (r: String)
    ensures
        r@ == interaction::named(v@, k@),
{
    match text_field(v, k) {
        Some(s) => s.to_owned(),
        None => String::new(),
    }
}

/// What is reported of the latest release, from what the release page says.
pub fn update_report(current: &str, data: &Json) -> (r: Json)
    ensures
        r@ == update_of(current@, data@),
{
    let latest = strip_v(text_or_empty(data, "tag_name").as_str());
    if latest.as_str().is_empty() {
        return report_failure("没读到 release 版本号");
    }
    let body = chars_of(trim(text_or_empty(data, "body").as_str()).as_str());
    let n: usize = if body.len() > NOTES_LIMIT {
        NOTES_LIMIT
    } else {
        body.len()
    };
    let notes = text_between(&body, 0, n);
    assert(body@.subrange(0, n as int) =~= notes_of(interaction::named(data@, "body"@)));
    let url = match text_field(data, "html_url") {
        Some(u) => u.to_owned(),
        None => cat2(repo_url().as_str(), "/releases/latest"),
    };
    let newer = compare_version(current, latest.as_str()) < 0;
    Json::object().with("ok", Json::Bool(true)).with("currentVersion", Json::text(current)).with(
        "latestVersion",
        Json::Str(latest),
    ).with("hasUpdate", Json::Bool(newer)).with("releaseUrl", Json::Str(url)).with(
        "publishedAt",
        Json::Str(text_or_empty(data, "published_at")),
    ).with("notes", Json::Str(notes))
}

/// What is reported of the latest release: from the answer's text, or from what
/// went wrong.
pub fn check_update(current: &str, fetched: Result<String, String>) -> (r: Json)
    ensures
        r@ == (match fetched {
            Ok(body) => match json::parsed(body@) {
                Some(data) => update_of(current@, data),
                None => failure("返回内容解析失败"@),
            },
            Err(e) => failure(e@),
        }),
{
    match fetched {
        Ok(body) => match parse_stored(body.as_str()) {
            Some(data) => update_report(current, &data),
            None => report_failure("返回内容解析失败"),
        },
        Err(e) => report_failure(e.as_str()),
    }
}

// ---------------------------------------------------------------------------
// The application
// ---------------------------------------------------------------------------

/// The platform: the system and the processor, under the names that are shown.
pub open spec fn platform(os: Seq<char>, arch: Seq<char>) -> Seq<char> {
    (if os == "windows"@ {
        "win32"@
    } else if os == "macos"@ {
        "darwin"@
    } else {
        os
    }) + "-"@ + (if arch == "x86_64"@ {
        "x64"@
    } else if arch == "aarch64"@ {
        "arm64"@
    } else {
        arch
    })
}

/// The platform, as it is shown.
pub fn platform_label(os: &str, arch: &str) -> (r: String)
    ensures
        r@ == platform(os@, arch@),
{
    let o = if same(os, "windows") {
        "win32"
    } else if same(os, "macos") {
        "darwin"
    } else {
        os
    };
    let a = if same(arch, "x86_64") {
        "x64"
    } else if same(arch, "aarch64") {
        "arm64"
    } else {
        arch
    };
    cat3(o, "-", a)
}

/// What the about panel shows.
pub fn app_info(name: &str, version: &str, os: &str, arch: &str) -> (r: Json)
    ensures
        r@ == JsonView::object().with("name"@, JsonView::Str(name@)).with(
            "version"@,
            JsonView::Str(version@),
        ).with("platform"@, JsonView::Str(platform(os@, arch@))).with(
            "repoUrl"@,
            JsonView::Str("https://github.com/HonorVanEr/pomodoro-fluent"@),
        ).with("license"@, JsonView::Str("MIT"@)).with("author"@, JsonView::Str("HonorVanEr"@)),
{
    Json::object().with("name", Json::text(name)).with("version", Json::text(version)).with(
        "platform",
        Json::Str(platform_label(os, arch)),
    ).with("repoUrl", Json::Str(repo_url())).with("license", Json::text("MIT")).with(
        "author",
        Json::text("HonorVanEr"),
    )
}

/// The links that may be handed to the system: those to the web that say more
/// than where it is.
pub open spec fn allowed(url: Seq<char>) -> bool {
    let u = text::trimmed(url);
    &&& vstd::utf8::encode_utf8(u).len() > 8
    &&& text::starts_with(u, "http://"@) || text::starts_with(u, "https://"@)
}

/// Whether a link may be handed to the system.
pub fn is_allowed_external(url: &str) -> (r: bool)
    ensures
        r == allowed(url@),
{
    let u = trim(url);
    u.as_str().as_bytes().len() > 8 && (has_prefix(u.as_str(), "http://") || has_prefix(
        u.as_str(),
        "https://",
    ))
}

// ---------------------------------------------------------------------------
// Laws
// ---------------------------------------------------------------------------

/// Whether two versions agree at every place.
pub open spec fn same_version(a: Seq<int>, b: Seq<int>) -> bool {
    forall|i: int| 0 <= i ==> #[trigger] at_place(a, i) == at_place(b, i)
}

proof fn lemma_order(a: Seq<int>, b: Seq<int>, i: int, n: int)
    requires
        0 <= i,
    ensures
        -1 <= order_from(a, b, i, n) <= 1,
        order_from(b, a, i, n) == -order_from(a, b, i, n),
        order_from(a, b, i, n) == 0 ==> forall|j: int|
            i <= j < n ==> #[trigger] at_place(a, j) == at_place(b, j),
    decreases n - i,
{
    if i < n {
        lemma_order(a, b, i + 1, n);
    }
}

/// The order turns round with its sides, and is 0 just where the versions agree
/// at every place.
pub proof fn law_versions_are_ordered(a: Seq<int>, b: Seq<int>)
    ensures
        order(b, a) == -order(a, b),
        order(a, b) == 0 <==> same_version(a, b),
{
    lemma_order(a, b, 0, longer(a, b));
    if order(a, b) == 0 {
        assert forall|i: int| 0 <= i implies #[trigger] at_place(a, i) == at_place(b, i) by {
        }
    } else if same_version(a, b) {
        lemma_same_order(a, b, 0, longer(a, b));
    }
}

proof fn lemma_same_order(a: Seq<int>, b: Seq<int>, i: int, n: int)
    requires
        same_version(a, b),
        0 <= i,
    ensures
        order_from(a, b, i, n) == 0,
    decreases n - i,
{
    if i < n {
        assert(at_place(a, i) == at_place(b, i));
        lemma_same_order(a, b, i + 1, n);
    }
}

proof fn lemma_order_longer(a: Seq<int>, b: Seq<int>, i: int, n: int, m: int)
    requires
        0 <= i,
        longer(a, b) <= n <= m,
    ensures
        order_from(a, b, i, n) == order_from(a, b, i, m),
    decreases m - i,
{
    if i < n {
        lemma_order_longer(a, b, i + 1, n, m);
    } else if i < m {
        lemma_order_longer(a, b, i + 1, n, m);
    }
}

proof fn lemma_order_transitive(a: Seq<int>, b: Seq<int>, c: Seq<int>, i: int, n: int)
    requires
        0 <= i,
        order_from(a, b, i, n) <= 0,
        order_from(b, c, i, n) <= 0,
    ensures
        order_from(a, c, i, n) <= 0,
        order_from(a, c, i, n) == 0 ==> order_from(a, b, i, n) == 0 && order_from(b, c, i, n) == 0,
    decreases n - i,
{
    if i < n {
        if at_place(a, i) == at_place(b, i) && at_place(b, i) == at_place(c, i) {
            lemma_order_transitive(a, b, c, i + 1, n);
        }
    }
}

/// What is not newer than something not newer than a third is not newer than the
/// third.
pub proof fn law_order_is_transitive(a: Seq<int>, b: Seq<int>, c: Seq<int>)
    requires
        order(a, b) <= 0,
        order(b, c) <= 0,
    ensures
        order(a, c) <= 0,
{
    let n = longer(a, b) + longer(b, c) + longer(a, c);
    lemma_order_longer(a, b, 0, longer(a, b), n);
    lemma_order_longer(b, c, 0, longer(b, c), n);
    lemma_order_longer(a, c, 0, longer(a, c), n);
    lemma_order_transitive(a, b, c, 0, n);
}

/// A segment that is missing counts as 0.
pub proof fn law_missing_numbers_count_as_zero(a: Seq<int>)
    ensures
        order(a, a.push(0)) == 0,
{
    law_versions_are_ordered(a, a.push(0));
    assert(same_version(a, a.push(0)));
}

// ---------------------------------------------------------------------------
// A version with one more segment
// ---------------------------------------------------------------------------

proof fn lemma_no_place(s: Seq<char>, p: Seq<char>, from: int)
    requires
        p.len() == 1,
        0 <= from,
        forall|k: int| from <= k < s.len() ==> #[trigger] s[k] != p[0],
    ensures
        text::seek(s, p, from) is None,
    decreases s.len() + 1 - from,
{
    if from < s.len() {
        assert(s.subrange(from, from + 1)[0] == s[from]);
        lemma_no_place(s, p, from + 1);
    }
}

proof fn lemma_none_before(s: Seq<char>, p: Seq<char>, from: int, k: int)
    requires
        p.len() == 1,
        0 <= from <= k < s.len(),
        text::seek(s, p, from) is None || text::seek(s, p, from)->0 > k,
    ensures
        s[k] != p[0],
    decreases k - from,
{
    let here = s.subrange(from, from + 1);
    if here == p {
        assert(text::seek(s, p, from) == Some(from));
    } else if from == k {
        if s[k] == p[0] {
            assert(here =~= p);
        }
    } else {
        lemma_none_before(s, p, from + 1, k);
    }
}

proof fn lemma_first_place(s: Seq<char>, p: Seq<char>, from: int, i: int)
    requires
        p.len() == 1,
        0 <= from <= i < s.len(),
        s[i] == p[0],
        forall|k: int| from <= k < i ==> #[trigger] s[k] != p[0],
    ensures
        text::seek(s, p, from) == Some(i),
    decreases i - from,
{
    let here = s.subrange(from, from + 1);
    assert(here[0] == s[from]);
    if from == i {
        assert(here =~= p);
    } else {
        lemma_first_place(s, p, from + 1, i);
    }
}

/// What follows the last separator is the last part.
proof fn lemma_split_more(x: Seq<char>, p: Seq<char>, last: Seq<char>)
    requires
        p.len() == 1,
        forall|k: int| 0 <= k < last.len() ==> #[trigger] last[k] != p[0],
    ensures
        text::split_by(x + p + last, p) == text::split_by(x, p).push(last),
    decreases x.len(),
{
    let all = x + p + last;
    match text::seek(x, p, 0) {
        Some(i) => {
            text::lemma_seek(x, p, 0);
            text::lemma_seek_more(x, p + last, p, 0);
            assert(all =~= x + (p + last));
            let rest = x.skip(i + 1);
            assert(all.skip(i + 1) =~= rest + p + last);
            assert(all.take(i) =~= x.take(i));
            lemma_split_more(rest, p, last);
            assert(text::split_by(all, p) =~= text::split_by(x, p).push(last));
        },
        None => {
            let n = x.len() as int;
            assert forall|k: int| 0 <= k < n implies #[trigger] all[k] != p[0] by {
                lemma_none_before(x, p, 0, k);
                assert(all[k] == x[k]);
            }
            lemma_first_place(all, p, 0, n);
            assert(all.take(n) =~= x);
            assert(all.skip(n + 1) =~= last);
            lemma_no_place(last, p, 0);
            assert(text::split_by(last, p) =~= seq![last]);
            assert(text::split_by(all, p) == seq![all.take(n)] + text::split_by(all.skip(n + 1), p));
            assert(text::split_by(x, p).push(last) =~= seq![x] + seq![last]);
        },
    }
}

/// What is added without a separator goes to the last part.
proof fn lemma_split_longer(x: Seq<char>, p: Seq<char>, w: Seq<char>)
    requires
        p.len() == 1,
        forall|k: int| 0 <= k < w.len() ==> #[trigger] w[k] != p[0],
    ensures
        ({
            let parts = text::split_by(x, p);
            &&& parts.len() > 0
            &&& text::split_by(x + w, p) == parts.drop_last().push(parts.last() + w)
        }),
    decreases x.len(),
{
    let all = x + w;
    let parts = text::split_by(x, p);
    match text::seek(x, p, 0) {
        Some(i) => {
            text::lemma_seek(x, p, 0);
            text::lemma_seek_more(x, w, p, 0);
            let rest = x.skip(i + 1);
            assert(all.skip(i + 1) =~= rest + w);
            assert(all.take(i) =~= x.take(i));
            lemma_split_longer(rest, p, w);
            let more = text::split_by(rest, p);
            assert(parts == seq![x.take(i)] + more);
            assert(parts.last() == more.last());
            assert(text::split_by(all, p) =~= parts.drop_last().push(parts.last() + w));
        },
        None => {
            assert forall|k: int| 0 <= k < all.len() implies #[trigger] all[k] != p[0] by {
                if k < x.len() {
                    lemma_none_before(x, p, 0, k);
                    assert(all[k] == x[k]);
                } else {
                    assert(all[k] == w[k - x.len()]);
                }
            }
            lemma_no_place(all, p, 0);
            assert(text::split_by(all, p) =~= parts.drop_last().push(parts.last() + w));
        },
    }
}

proof fn lemma_digits_end(s: Seq<char>, w: Seq<char>)
    requires
        w.len() > 0 ==> !is_digit(w[0]),
    ensures
        leading_digits(s + w) == leading_digits(s),
    decreases s.len(),
{
    let all = s + w;
    if s.len() == 0 {
        assert(all =~= w);
    } else {
        assert(all[0] == s[0]);
        assert(all.drop_first() =~= s.drop_first() + w);
        lemma_digits_end(s.drop_first(), w);
    }
}

proof fn lemma_numbers_end(segs: Seq<Seq<char>>, w: Seq<char>)
    requires
        segs.len() > 0,
        w.len() > 0 ==> !is_digit(w[0]),
    ensures
        numbers_of(segs.drop_last().push(segs.last() + w)) == numbers_of(segs),
    decreases segs.len(),
{
    let other = segs.drop_last().push(segs.last() + w);
    lemma_digits_end(segs.last(), w);
    if segs.len() == 1 {
        assert(other.drop_first() =~= segs.drop_first());
    } else {
        let rest = segs.drop_first();
        lemma_numbers_end(rest, w);
        assert(other[0] == segs[0]);
        assert(other.drop_first() =~= rest.drop_last().push(rest.last() + w));
    }
}

proof fn lemma_numbers_more(segs: Seq<Seq<char>>, last: Seq<char>)
    requires
        segment_number(last) == Some(0int),
    ensures
        numbers_of(segs.push(last)) == numbers_of(segs) || numbers_of(segs.push(last))
            == numbers_of(segs).push(0),
        segs.len() > 0 && numbers_of(segs).len() == 0 ==> numbers_of(segs.push(last)).len() == 0,
    decreases segs.len(),
{
    let all = segs.push(last);
    if segs.len() == 0 {
        assert(all.drop_first() =~= Seq::empty());
        assert(numbers_of(all.drop_first()) =~= Seq::empty());
        assert(numbers_of(all) =~= numbers_of(segs).push(0));
    } else {
        let rest = segs.drop_first();
        lemma_numbers_more(rest, last);
        assert(all[0] == segs[0]);
        assert(all.drop_first() =~= rest.push(last));
        if let Some(n) = segment_number(segs[0]) {
            assert(seq![n] + numbers_of(rest).push(0) =~= (seq![n] + numbers_of(rest)).push(0));
        }
    }
}

proof fn lemma_trimmed_start(a: Seq<char>, t: Seq<char>)
    requires
        t.len() > 0,
        !text::white(t[0]),
    ensures
        text::trimmed_start(a + t) == text::trimmed_start(a) + t,
        text::trimmed_start(a).len() > 0 ==> !text::white(text::trimmed_start(a)[0]),
    decreases a.len(),
{
    if a.len() == 0 {
        assert(a + t =~= t);
    } else {
        assert((a + t)[0] == a[0]);
        if text::white(a[0]) {
            assert((a + t).drop_first() =~= a.drop_first() + t);
            lemma_trimmed_start(a.drop_first(), t);
        }
    }
}

proof fn lemma_trimmed_end(b: Seq<char>) -> (w: Seq<char>)
    ensures
        b == text::trimmed_end(b) + w,
        forall|k: int| 0 <= k < w.len() ==> text::white(#[trigger] w[k]),
        b.len() > 0 && !text::white(b[0]) ==> text::trimmed_end(b).len() > 0,
    decreases b.len(),
{
    if b.len() > 0 && text::white(b.last()) {
        let head = b.drop_last();
        let w = lemma_trimmed_end(head);
        let all = w.push(b.last());
        assert(text::trimmed_end(b) == text::trimmed_end(head));
        assert(head.push(b.last()) =~= b);
        assert((text::trimmed_end(head) + w).push(b.last()) =~= text::trimmed_end(head) + all);
        all
    } else {
        assert(b =~= b + Seq::empty());
        Seq::empty()
    }
}

/// A segment that a version does not have counts as 0: whatever the version's text,
/// it compares equal with `.0` added.
pub proof fn law_a_zero_segment_makes_no_difference(a: Seq<char>)
    ensures
        order(version_of(a + ".0"@), version_of(a)) == 0,
{
    reveal_strlit(".");
    reveal_strlit(".0");
    let dot = "."@;
    let zero = seq!['0'];
    assert(".0"@ =~= dot + zero);
    let b = text::trimmed_start(a);
    lemma_trimmed_start(a, ".0"@);
    let longer_text = b + ".0"@;
    assert(longer_text.last() == '0');
    assert(text::trimmed(a + ".0"@) == longer_text);
    let w = lemma_trimmed_end(b);
    let kept = text::trimmed_end(b);
    let x = without_v(b);
    let y = without_v(kept);
    assert(without_v(longer_text) =~= x + dot + zero) by {
        if b.len() > 0 {
            assert(longer_text[0] == b[0]);
        }
    }
    assert(x =~= y + w) by {
        if b.len() > 0 {
            assert(kept[0] == b[0]);
        } else {
            assert(kept.len() == 0 && w.len() == 0);
        }
    }
    assert forall|k: int| 0 <= k < w.len() implies #[trigger] w[k] != dot[0] by {
        assert(text::white(w[k]));
    }
    lemma_split_longer(y, dot, w);
    lemma_split_more(x, dot, zero);
    let parts = text::split_by(y, dot);
    let segs = text::split_by(x, dot);
    if w.len() > 0 {
        assert(text::white(w[0]));
    }
    lemma_numbers_end(parts, w);
    assert(numbers_of(segs) == numbers_of(parts));
    assert(zero.drop_first() =~= Seq::empty());
    assert(leading_digits(zero) =~= zero) by {
        assert(leading_digits(zero.drop_first()) =~= Seq::empty());
    }
    assert(zero.drop_last() =~= Seq::empty());
    assert(text::digits_value(zero.drop_last(), 10) == Some(0int));
    assert(text::digits_value(zero, 10) == Some(0int));
    assert(segment_number(zero) == Some(0int));
    lemma_numbers_more(segs, zero);
    let short = version_of(a);
    let long = version_of(a + ".0"@);
    if long == short {
        assert(same_version(long, short));
    } else {
        assert(long == short.push(0));
        assert(same_version(long, short));
    }
    law_versions_are_ordered(long, short);
}

/// Only addresses of the web may be opened outside.
pub proof fn law_only_the_web_is_opened(url: Seq<char>)
    ensures
        allowed(url) ==> text::starts_with(text::trimmed(url), "http://"@) || text::starts_with(
            text::trimmed(url),
            "https://"@,
        ),
        vstd::utf8::encode_utf8(text::trimmed(url)).len() > 8 && text::starts_with(
            text::trimmed(url),
            "https://"@,
        ) ==> allowed(url),
        vstd::utf8::encode_utf8(text::trimmed(url)).len() > 8 && text::starts_with(
            text::trimmed(url),
            "http://"@,
        ) ==> allowed(url),
        vstd::utf8::encode_utf8(text::trimmed(url)).len() <= 8 ==> !allowed(url),
{
}

/// The platform is called as it is in the names of releases.
pub proof fn law_what_platforms_are_called(os: Seq<char>, arch: Seq<char>)
    ensures
        platform("windows"@, "x86_64"@) == "win32"@ + "-"@ + "x64"@,
        platform("macos"@, "aarch64"@) == "darwin"@ + "-"@ + "arm64"@,
        os != "windows"@ && os != "macos"@ && arch != "x86_64"@ && arch != "aarch64"@ ==> platform(
            os,
            arch,
        ) == os + "-"@ + arch,
{
    reveal_strlit("windows");
    reveal_strlit("macos");
    reveal_strlit("x86_64");
    reveal_strlit("aarch64");
    assert("windows"@.len() == 7);
    assert("macos"@.len() == 5);
    assert("x86_64"@.len() == 6);
    assert("aarch64"@.len() == 7);
    assert("windows"@[0] == 'w');
    assert("aarch64"@[0] == 'a');
}

/// What is reported of a release: which version it is, whether it is newer than the
/// one that runs, and where it is found.
pub proof fn law_what_is_reported_of_a_release(
    current: Seq<char>,
    data: JsonView,
    tag: Seq<char>,
    url: Seq<char>,
    version: Seq<char>,
)
    requires
        data.field("tag_name"@) == Some(JsonView::Str(tag)),
        version.len() > 0,
        tag == version && tag[0] != 'v' && tag[0] != 'V' || tag == "v"@ + version,
    ensures
        ({
            let r = update_of(current, data);
            &&& r.field("ok"@) == Some(JsonView::Bool(true))
            &&& r.field("currentVersion"@) == Some(JsonView::Str(current))
            &&& r.field("latestVersion"@) == Some(JsonView::Str(version))
            &&& r.field("hasUpdate"@) == Some(
                JsonView::Bool(order(version_of(current), version_of(version)) < 0),
            )
            &&& data.field("html_url"@) == Some(JsonView::Str(url)) ==> r.field("releaseUrl"@)
                == Some(JsonView::Str(url))
            &&& data.field("html_url"@) is None ==> r.field("releaseUrl"@) == Some(
                JsonView::Str(
                    "https://github.com/HonorVanEr/pomodoro-fluent"@ + "/releases/latest"@,
                ),
            )
        }),
{
    broadcast use crate::json::group_fields;

    reveal_strlit("v");
    assert("v"@.len() == 1 && "v"@[0] == 'v');
    if tag == "v"@ + version {
        assert(tag[0] == 'v');
        assert(tag.skip(1) =~= version);
    }
    reveal_strlit("ok");
    reveal_strlit("currentVersion");
    reveal_strlit("latestVersion");
    reveal_strlit("hasUpdate");
    reveal_strlit("releaseUrl");
    reveal_strlit("publishedAt");
    reveal_strlit("notes");
    assert("ok"@.len() == 2);
    assert("currentVersion"@.len() == 14);
    assert("latestVersion"@.len() == 13);
    assert("hasUpdate"@.len() == 9);
    assert("releaseUrl"@.len() == 10);
    assert("publishedAt"@.len() == 11);
    assert("notes"@.len() == 5);
}

/// A release that names no version is no release.
pub proof fn law_a_release_names_its_version(current: Seq<char>, data: JsonView)
    requires
        data.field("tag_name"@) is None,
    ensures
        update_of(current, data).field("ok"@) == Some(JsonView::Bool(false)),
        update_of(current, data).field("error"@) == Some(JsonView::Str("没读到 release 版本号"@)),
{
    broadcast use crate::json::group_fields;

    reveal_strlit("ok");
    reveal_strlit("error");
    assert("ok"@.len() == 2);
    assert("error"@.len() == 5);
}

/// The version that runs is not newer than itself, so there is no update to it.
pub proof fn law_no_update_to_what_runs(v: Seq<int>)
    ensures
        order(v, v) == 0,
{
    lemma_order_to_itself(v, 0, v.len() as int);
}

proof fn lemma_order_to_itself(v: Seq<int>, i: int, n: int)
    ensures
        order_from(v, v, i, n) == 0,
    decreases n - i,
{
    if i < n {
        lemma_order_to_itself(v, i + 1, n);
    }
}

/// A greater number at the first place where two versions differ makes the newer one.
pub proof fn law_the_first_difference_decides(a: Seq<int>, b: Seq<int>, i: int)
    requires
        0 <= i < a.len(),
        i < b.len(),
        forall|j: int| 0 <= j < i ==> #[trigger] a[j] == b[j],
        a[i] < b[i],
    ensures
        order(a, b) == -1,
        order(b, a) == 1,
{
    lemma_decided(a, b, 0, i, longer(a, b));
    lemma_decided(b, a, 0, i, longer(b, a));
}

proof fn lemma_decided(a: Seq<int>, b: Seq<int>, from: int, i: int, n: int)
    requires
        0 <= from <= i < a.len(),
        i < b.len(),
        i < n,
        forall|j: int| 0 <= j < i ==> #[trigger] a[j] == b[j],
        a[i] != b[i],
    ensures
        order_from(a, b, from, n) == (if a[i] < b[i] {
            -1int
        } else {
            1
        }),
    decreases i - from,
{
    if from < i {
        assert(a[from] == b[from]);
        lemma_decided(a, b, from + 1, i, n);
    }
}

/// What is said of a release is cut to eight hundred characters.
pub proof fn law_notes_are_short(body: Seq<char>)
    ensures
        notes_of(body).len() <= 800,
        text::trimmed(body).len() <= 800 ==> notes_of(body) == text::trimmed(body),
        text::trimmed(body).len() > 800 ==> notes_of(body) == text::trimmed(body).take(800),
{
}

/// The page of an update is told when it came out, and what its notes say.
pub proof fn law_what_a_release_brings(current: Seq<char>, data: JsonView, s: Seq<char>)
    requires
        update_of(current, data).field("ok"@) == Some(JsonView::Bool(true)),
    ensures
        data.field("published_at"@) == Some(JsonView::Str(s)) ==> update_of(current, data).field(
            "publishedAt"@,
        ) == Some(JsonView::Str(s)),
        data.field("body"@) == Some(JsonView::Str(s)) ==> update_of(current, data).field("notes"@)
            == Some(JsonView::Str(notes_of(s))),
{
    broadcast use crate::json::group_fields;

    reveal_strlit("ok");
    reveal_strlit("currentVersion");
    reveal_strlit("latestVersion");
    reveal_strlit("hasUpdate");
    reveal_strlit("releaseUrl");
    reveal_strlit("publishedAt");
    reveal_strlit("notes");
    assert("ok"@.len() == 2);
    assert("currentVersion"@.len() == 14);
    assert("latestVersion"@.len() == 13);
    assert("hasUpdate"@.len() == 9);
    assert("releaseUrl"@.len() == 10);
    assert("publishedAt"@.len() == 11);
    assert("notes"@.len() == 5);
}

} // verus!

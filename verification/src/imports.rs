//! What is taken in from outside: positions and transactions read off pictures, and pictures.
use vstd::prelude::*;
use base64::Engine;
use crate::channel::message;
use crate::funds::{lowercase, lowercase_of};
use crate::symbols::{push_new, with_new};
use crate::text::{decimal, decimal_of, digits_n, is_digits_n, same, to_chars, trim, trimmed, views};

verus! {

// ---------------------------------------------------------------------------
// Fund codes
// ---------------------------------------------------------------------------

/// A row read off a picture, as far as its fund goes.
pub struct ScannedRow {
    pub code: String,
    pub name: String,
}

/// The row lacks a real fund code of six digits, and is to be looked up by its name.
pub open spec fn lacks_code(row: ScannedRow, skip_nameless: bool) -> bool {
    !digits_n(row.code@, 6) && !(skip_nameless && row.name@.len() == 0)
}

/// The names to look up, each once, in the order in which they first occur.
pub open spec fn names_of(rows: Seq<ScannedRow>, skip_nameless: bool) -> Seq<Seq<char>>
    decreases rows.len(),
{
    if rows.len() == 0 {
        Seq::empty()
    } else if lacks_code(rows.last(), skip_nameless) {
        with_new(names_of(rows.drop_last(), skip_nameless), rows.last().name@)
    } else {
        names_of(rows.drop_last(), skip_nameless)
    }
}

/// Whether a row is to be looked up by its name.
pub fn is_without_code(row: &ScannedRow, skip_nameless: bool) -> (r: bool)
    ensures
        r == lacks_code(*row, skip_nameless),
{
    !is_digits_n(row.code.as_str(), 6) && !(skip_nameless && row.name.as_str().is_empty())
}

/// The names to look up, each once. Rows of transactions without a name are passed over.
pub fn names_to_look_up(rows: &Vec<ScannedRow>, skip_nameless: bool) -> (r: Vec<String>)
    ensures
        views(r@) == names_of(rows@, skip_nameless),
{
    let mut r: Vec<String> = Vec::new();
    let mut i: usize = 0;
    assert(views(r@) =~= names_of(rows@.take(0), skip_nameless));
    while i < rows.len()
        invariant
            i <= rows@.len(),
            views(r@) == names_of(rows@.take(i as int), skip_nameless),
        decreases rows@.len() - i,
    {
        assert(rows@.take(i + 1).drop_last() =~= rows@.take(i as int));
        if is_without_code(&rows[i], skip_nameless) {
            push_new(&mut r, rows[i].name.clone());
        }
        i += 1;
    }
    assert(rows@.take(rows@.len() as int) =~= rows@);
    r
}

/// What looking up a name gave, as far as it was looked up.
pub open spec fn found_code(found: Seq<(String, Option<String>)>, name: Seq<char>, n: int) -> Option<
    Seq<char>,
>
    decreases n,
{
    if n <= 0 {
        None
    } else if found[n - 1].0@ == name {
        match found[n - 1].1 {
            Some(c) => Some(c@),
            None => None,
        }
    } else {
        found_code(found, name, n - 1)
    }
}

/// The code of a row after looking up, and whether it is a real one.
pub open spec fn completed(
    row: ScannedRow,
    found: Seq<(String, Option<String>)>,
    skip_nameless: bool,
) -> (Seq<char>, bool) {
    if lacks_code(row, skip_nameless) {
        match found_code(found, row.name@, found.len() as int) {
            Some(c) => (c, true),
            None => (row.code@, false),
        }
    } else {
        (row.code@, digits_n(row.code@, 6))
    }
}

/// What looking up a name gave.
fn look_in(found: &Vec<(String, Option<String>)>, name: &str) -> (r: Option<String>)
    ensures
        match r {
            Some(c) => found_code(found@, name@, found@.len() as int) == Some(c@),
            None => found_code(found@, name@, found@.len() as int) is None,
        },
{
    let mut n: usize = found.len();
    while n > 0
        invariant
            n <= found@.len(),
            found_code(found@, name@, found@.len() as int) == found_code(found@, name@, n as int),
        decreases n,
    {
        if same(found[n - 1].0.as_str(), name) {
            return match &found[n - 1].1 {
                Some(c) => Some(c.clone()),
                None => None,
            };
        }
        n -= 1;
    }
    None
}

/// The codes of rows after looking up; where nothing was found a row keeps what it had. The mark says
/// whether the code is a real one, so that its value can be fetched.
pub fn complete_codes(
    rows: &Vec<ScannedRow>,
    found: &Vec<(String, Option<String>)>,
    skip_nameless: bool,
) -> (r: Vec<(String, bool)>)
    ensures
        r@.len() == rows@.len(),
        forall|i: int|
            0 <= i < r@.len() ==> ((#[trigger] r@[i]).0@, r@[i].1) == completed(
                rows@[i],
                found@,
                skip_nameless,
            ),
{
    let mut r: Vec<(String, bool)> = Vec::new();
    let mut i: usize = 0;
    while i < rows.len()
        invariant
            i <= rows@.len(),
            r@.len() == i,
            forall|k: int|
                0 <= k < i ==> ((#[trigger] r@[k]).0@, r@[k].1) == completed(
                    rows@[k],
                    found@,
                    skip_nameless,
                ),
        decreases rows@.len() - i,
    {
        let row = &rows[i];
        let done = if is_without_code(row, skip_nameless) {
            match look_in(found, row.name.as_str()) {
                Some(c) => (c, true),
                None => (row.code.clone(), false),
            }
        } else {
            let genuine = is_digits_n(row.code.as_str(), 6);
            (row.code.clone(), genuine)
        };
        assert((done.0@, done.1) == completed(rows@[i as int], found@, skip_nameless));
        r.push(done);
        i += 1;
    }
    r
}

/// A real code is never replaced, whatever was looked up.
pub proof fn law_real_codes_stay(
    row: ScannedRow,
    found: Seq<(String, Option<String>)>,
    skip_nameless: bool,
)
    requires
        digits_n(row.code@, 6),
    ensures
        completed(row, found, skip_nameless) == (row.code@, true),
{
}

/// No name is looked up twice, and every row without a code has its name looked up.
pub proof fn law_names_looked_up_once(rows: Seq<ScannedRow>, skip_nameless: bool)
    ensures
        names_of(rows, skip_nameless).no_duplicates(),
        forall|i: int|
            0 <= i < rows.len() && lacks_code(#[trigger] rows[i], skip_nameless) ==> names_of(
                rows,
                skip_nameless,
            ).contains(rows[i].name@),
    decreases rows.len(),
{
    if rows.len() > 0 {
        let rest = rows.drop_last();
        law_names_looked_up_once(rest, skip_nameless);
        let before = names_of(rest, skip_nameless);
        let after = names_of(rows, skip_nameless);
        assert forall|i: int| 0 <= i < rows.len() && lacks_code(
            #[trigger] rows[i],
            skip_nameless,
        ) implies after.contains(rows[i].name@) by {
            if i < rest.len() {
                assert(rest[i] == rows[i]);
                let k = choose|k: int| 0 <= k < before.len() && before[k] == rows[i].name@;
                assert(after[k] == rows[i].name@);
            } else if !before.contains(rows[i].name@) {
                assert(after[before.len() as int] == rows[i].name@);
            }
        }
        assert forall|i: int, j: int| 0 <= i < j < after.len() implies after[i] != after[j] by {
            if j == before.len() {
                assert(before.contains(before[i]));
            }
        }
    }
}

// ---------------------------------------------------------------------------
// What the user is told
// ---------------------------------------------------------------------------

/// Told where pictures cannot be read.
pub const NOT_READY: &'static str = "OCR 引擎未就绪：请先运行 src-tauri/download_ocr_models.sh 下载 PP-OCRv4 模型，并以 --features ocr 构建（npm run tauri build --features ocr）。";

/// What is told of positions read off pictures.
pub open spec fn holdings_note(ready: bool, lines: nat, found: nat, stored: nat) -> Seq<char> {
    if !ready {
        NOT_READY@
    } else if found == 0 && lines > 0 {
        "OCR 已识别 "@ + decimal_of(lines)
            + " 行文本，但未匹配到基金持仓。可在下方「OCR 原始文本」查看，并把内容发我以微调列定位。"@
    } else {
        "本地 PaddleOCR 识别完成：识别 "@ + decimal_of(found) + " 条持仓，已写入 "@ + decimal_of(
            stored,
        ) + " 只基金（可在总览页查看，随后刷新行情/披露即可估值）。"@
    }
}

/// What is told of positions read off pictures: of how many lines, how many funds, and how many of
/// them were stored.
pub fn note_on_holdings(ready: bool, lines: usize, found: usize, stored: usize) -> (r: String)
    ensures
        r@ == holdings_note(ready, lines as nat, found as nat, stored as nat),
{
    if !ready {
        return NOT_READY.to_owned();
    }
    if found == 0 && lines > 0 {
        let mut s = message("OCR 已识别 ", decimal(lines as u64).as_str());
        s.append(
            " 行文本，但未匹配到基金持仓。可在下方「OCR 原始文本」查看，并把内容发我以微调列定位。",
        );
        s
    } else {
        let mut s = message("本地 PaddleOCR 识别完成：识别 ", decimal(found as u64).as_str());
        s.append(" 条持仓，已写入 ");
        s.append(decimal(stored as u64).as_str());
        s.append(" 只基金（可在总览页查看，随后刷新行情/披露即可估值）。");
        s
    }
}

/// What is told of transactions read off pictures.
pub open spec fn txns_note(ready: bool, lines: nat, found: nat) -> Seq<char> {
    if !ready {
        NOT_READY@
    } else if found == 0 && lines > 0 {
        "OCR 已识别 "@ + decimal_of(lines)
            + " 行文本，但未匹配到交易记录。可在下方「OCR 原始文本」核对，并把截图发我以微调列定位。"@
    } else {
        "本地 PaddleOCR 识别完成：识别 "@ + decimal_of(found)
            + " 条交易记录（买/卖/分红）。请核对下方预览（类型/日期/份额/金额/价格均可手改），确认后点「导入交易记录」写入真实流水。"@
    }
}

/// What is told of transactions read off pictures.
pub fn note_on_txns(ready: bool, lines: usize, found: usize) -> (r: String)
    ensures
        r@ == txns_note(ready, lines as nat, found as nat),
{
    if !ready {
        return NOT_READY.to_owned();
    }
    if found == 0 && lines > 0 {
        let mut s = message("OCR 已识别 ", decimal(lines as u64).as_str());
        s.append(
            " 行文本，但未匹配到交易记录。可在下方「OCR 原始文本」核对，并把截图发我以微调列定位。",
        );
        s
    } else {
        let mut s = message("本地 PaddleOCR 识别完成：识别 ", decimal(found as u64).as_str());
        s.append(
            " 条交易记录（买/卖/分红）。请核对下方预览（类型/日期/份额/金额/价格均可手改），确认后点「导入交易记录」写入真实流水。",
        );
        s
    }
}

// ---------------------------------------------------------------------------
// Transactions
// ---------------------------------------------------------------------------

/// A transaction as it is handed in, without its figures.
pub struct TxnIn {
    pub fund_code: String,
    pub fund_name: Option<String>,
    pub txn_type: String,
    pub txn_date: String,
    pub txn_time: Option<String>,
    pub note: Option<String>,
}

/// A transaction in its normal form, without its figures.
pub struct TxnText {
    pub fund_code: String,
    pub fund_name: Option<String>,
    pub txn_type: &'static str,
    pub txn_date: String,
    pub txn_time: String,
    pub note: Option<String>,
    pub platform: String,
}

/// The normal name of a type of transaction, by its name in lower case and without white space around
/// it.
pub open spec fn type_of_txn(lower: Seq<char>) -> Option<Seq<char>> {
    if lower == "buy"@ || lower == "买入"@ || lower == "申购"@ || lower == "买进"@ {
        Some("buy"@)
    } else if lower == "sell"@ || lower == "卖出"@ || lower == "赎回"@ {
        Some("sell"@)
    } else if lower == "dividend"@ || lower == "分红"@ || lower == "现金分红"@ {
        Some("dividend"@)
    } else {
        None
    }
}

/// The normal name of a type of transaction.
pub fn normal_type(lower: &str) -> (r: Option<&'static str>)
    ensures
        match r {
            Some(t) => type_of_txn(lower@) == Some(t@),
            None => type_of_txn(lower@) is None,
        },
{
    if same(lower, "buy") || same(lower, "买入") || same(lower, "申购") || same(lower, "买进") {
        Some("buy")
    } else if same(lower, "sell") || same(lower, "卖出") || same(lower, "赎回") {
        Some("sell")
    } else if same(lower, "dividend") || same(lower, "分红") || same(lower, "现金分红") {
        Some("dividend")
    } else {
        None
    }
}

/// An optional text without white space around it.
pub open spec fn trimmed_of(o: Option<String>) -> Option<Seq<char>> {
    match o {
        Some(s) => Some(trimmed(s@)),
        None => None,
    }
}

/// The text of an optional string.
pub open spec fn optional_text(o: Option<String>) -> Option<Seq<char>> {
    match o {
        Some(s) => Some(s@),
        None => None,
    }
}

/// An optional text without white space around it.
fn trim_option(o: &Option<String>) -> (r: Option<String>)
    ensures
        optional_text(r) == trimmed_of(*o),
{
    match o {
        Some(s) => Some(trim(s.as_str())),
        None => None,
    }
}

/// `t` is the normal form of a transaction whose type has this name in lower case.
pub open spec fn normal_form(it: TxnIn, lower: Seq<char>, platform: Seq<char>, t: TxnText) -> bool {
    &&& type_of_txn(lower) == Some(t.txn_type@)
    &&& t.fund_code@ == trimmed(it.fund_code@)
    &&& optional_text(t.fund_name) == trimmed_of(it.fund_name)
    &&& t.txn_date@ == trimmed(it.txn_date@)
    &&& t.txn_time@ == (match trimmed_of(it.txn_time) {
        Some(s) => s,
        None => Seq::empty(),
    })
    &&& optional_text(t.note) == trimmed_of(it.note)
    &&& t.platform@ == platform
}

/// What a type of transaction that is not known is answered with.
pub open spec fn unknown_type(lower: Seq<char>) -> Seq<char> {
    "不支持的交易类型："@ + lower
}

/// The normal forms of transactions, given the names of their types in lower case: those of all, or
/// the error of the first one whose type is not known.
pub fn normalize_with(items: &Vec<TxnIn>, lowers: &Vec<String>, platform: &str) -> (r: Result<
    Vec<TxnText>,
    String,
>)
    requires
        lowers@.len() == items@.len(),
    ensures
        match r {
            Ok(v) => {
                &&& v@.len() == items@.len()
                &&& forall|i: int|
                    0 <= i < v@.len() ==> normal_form(
                        items@[i],
                        lowers@[i]@,
                        platform@,
                        #[trigger] v@[i],
                    )
            },
            Err(m) => exists|i: int|
                {
                    &&& 0 <= i < items@.len()
                    &&& type_of_txn((#[trigger] lowers@[i])@) is None
                    &&& m@ == unknown_type(lowers@[i]@)
                    &&& forall|j: int| 0 <= j < i ==> type_of_txn((#[trigger] lowers@[j])@) is Some
                },
        },
{
    let mut v: Vec<TxnText> = Vec::new();
    let mut i: usize = 0;
    while i < items.len()
        invariant
            lowers@.len() == items@.len(),
            i <= items@.len(),
            v@.len() == i,
            forall|k: int|
                0 <= k < i ==> normal_form(items@[k], lowers@[k]@, platform@, #[trigger] v@[k]),
        decreases items@.len() - i,
    {
        let it = &items[i];
        let txn_type = match normal_type(lowers[i].as_str()) {
            Some(t) => t,
            None => {
                let m = message("不支持的交易类型：", lowers[i].as_str());
                assert forall|j: int| 0 <= j < i implies type_of_txn(
                    (#[trigger] lowers@[j])@,
                ) is Some by {
                    assert(normal_form(items@[j], lowers@[j]@, platform@, v@[j]));
                }
                assert(type_of_txn(lowers@[i as int]@) is None);
                return Err(m);
            },
        };
        let txn_time = match &it.txn_time {
            Some(s) => trim(s.as_str()),
            None => String::new(),
        };
        let t = TxnText {
            fund_code: trim(it.fund_code.as_str()),
            fund_name: trim_option(&it.fund_name),
            txn_type,
            txn_date: trim(it.txn_date.as_str()),
            txn_time,
            note: trim_option(&it.note),
            platform: platform.to_owned(),
        };
        assert(t.txn_time@ =~= (match trimmed_of(it.txn_time) {
            Some(s) => s,
            None => Seq::empty(),
        }));
        v.push(t);
        i += 1;
    }
    Ok(v)
}

/// The name of a type of transaction as it is compared.
pub open spec fn type_key(it: TxnIn) -> Seq<char> {
    lowercase_of(trimmed(it.txn_type@))
}

/// The normal forms of transactions: those of all, or the error of the first one whose type is not
/// known.
pub fn normalize_txns(items: &Vec<TxnIn>, platform: &str) -> (r: Result<Vec<TxnText>, String>)
    ensures
        match r {
            Ok(v) => {
                &&& v@.len() == items@.len()
                &&& forall|i: int|
                    0 <= i < v@.len() ==> normal_form(
                        items@[i],
                        type_key(items@[i]),
                        platform@,
                        #[trigger] v@[i],
                    )
            },
            Err(m) => exists|i: int|
                {
                    &&& 0 <= i < items@.len()
                    &&& type_of_txn(type_key(#[trigger] items@[i])) is None
                    &&& m@ == unknown_type(type_key(items@[i]))
                    &&& forall|j: int|
                        0 <= j < i ==> type_of_txn(type_key(#[trigger] items@[j])) is Some
                },
        },
{
    let mut lowers: Vec<String> = Vec::new();
    let mut i: usize = 0;
    while i < items.len()
        invariant
            i <= items@.len(),
            lowers@.len() == i,
            forall|k: int| 0 <= k < i ==> (#[trigger] lowers@[k])@ == type_key(items@[k]),
        decreases items@.len() - i,
    {
        lowers.push(lowercase(trim(items[i].txn_type.as_str()).as_str()));
        i += 1;
    }
    let r = normalize_with(items, &lowers, platform);
    proof {
        if r is Err {
            let m = r->Err_0;
            let i = choose|i: int|
                {
                    &&& 0 <= i < items@.len()
                    &&& type_of_txn((#[trigger] lowers@[i])@) is None
                    &&& m@ == unknown_type(lowers@[i]@)
                    &&& forall|j: int| 0 <= j < i ==> type_of_txn((#[trigger] lowers@[j])@) is Some
                };
            assert(type_of_txn(type_key(items@[i])) is None);
            assert forall|j: int| 0 <= j < i implies type_of_txn(
                type_key(#[trigger] items@[j]),
            ) is Some by {
                assert(type_of_txn(lowers@[j]@) is Some);
            }
        }
    }
    r
}

// ---------------------------------------------------------------------------
// Pictures
// ---------------------------------------------------------------------------

/// A character with an ASCII letter in lower case.
pub open spec fn ascii_lower(c: char) -> char {
    if 'A' <= c <= 'Z' {
        (c as u32 + 32) as char
    } else {
        c
    }
}

/// What follows the last dot of a path; the whole path where it has none.
pub open spec fn after_last_dot(path: Seq<char>) -> Seq<char>
    decreases path.len(),
{
    if !path.contains('.') {
        path
    } else {
        after_last_dot(path.skip(path.index_of('.') + 1))
    }
}

/// The kind of picture that an ending in lower case stands for.
pub open spec fn mime_of(ext: Seq<char>) -> Seq<char> {
    if ext == "jpg"@ || ext == "jpeg"@ {
        "image/jpeg"@
    } else if ext == "bmp"@ {
        "image/bmp"@
    } else if ext == "webp"@ {
        "image/webp"@
    } else if ext == "gif"@ {
        "image/gif"@
    } else {
        "image/png"@
    }
}

/// The character that stands for six bits.
pub open spec fn sextet(n: int) -> char {
    if n < 26 {
        (65 + n) as u32 as char
    } else if n < 52 {
        (97 + n - 26) as u32 as char
    } else if n < 62 {
        (48 + n - 52) as u32 as char
    } else if n == 62 {
        '+'
    } else {
        '/'
    }
}

/// Bytes in base 64: four characters for three bytes, filled up with `=` at the end.
pub open spec fn base64_text(b: Seq<u8>) -> Seq<char>
    decreases b.len(),
{
    if b.len() == 0 {
        Seq::empty()
    } else if b.len() == 1 {
        seq![sextet(b[0] as int / 4), sextet((b[0] as int % 4) * 16), '=', '=']
    } else if b.len() == 2 {
        seq![
            sextet(b[0] as int / 4),
            sextet((b[0] as int % 4) * 16 + b[1] as int / 16),
            sextet((b[1] as int % 16) * 4),
            '=',
        ]
    } else {
        seq![
            sextet(b[0] as int / 4),
            sextet((b[0] as int % 4) * 16 + b[1] as int / 16),
            sextet((b[1] as int % 16) * 4 + b[2] as int / 64),
            sextet(b[2] as int % 64),
        ] + base64_text(b.skip(3))
    }
}

/// Bytes in base 64. Calls `encode` of the engine `STANDARD` of the crate base64, which uses the
/// standard alphabet and fills up with `=`. It sets aside all of the text at once, so that the text
/// has to fit into memory.
#[verifier::external_body]
pub(crate) fn to_base64(bytes: &[u8]) -> (r: String)
    requires
        (bytes@.len() + 2) / 3 * 4 <= isize::MAX,
    ensures
        r@ == base64_text(bytes@),
{
    base64::engine::general_purpose::STANDARD.encode(bytes)
}

/// What follows the last dot of a path, in lower case.
fn ending(path: &str) -> (r: String)
    ensures
        r@ == after_last_dot(path@).map_values(|c: char| ascii_lower(c)),
{
    let v = to_chars(path);
    let mut from: usize = v.len();
    while from > 0 && v[from - 1] != '.'
        invariant
            from <= v@.len(),
            forall|k: int| from <= k < v@.len() ==> #[trigger] v@[k] != '.',
        decreases from,
    {
        from -= 1;
    }
    proof {
        lemma_after_last_dot(v@, from as int);
    }
    let ghost tail = v@.skip(from as int);
    let mut r = String::new();
    let mut i: usize = from;
    assert(r@ =~= tail.take(0).map_values(|c: char| ascii_lower(c)));
    while i < v.len()
        invariant
            from <= i <= v@.len(),
            tail == v@.skip(from as int),
            r@ == tail.take(i - from).map_values(|c: char| ascii_lower(c)),
        decreases v@.len() - i,
    {
        let c = v[i];
        assert(tail[i - from] == c);
        if 'A' <= c && c <= 'Z' {
            r.push((c as u8 + 32) as char);
        } else {
            r.push(c);
        }
        i += 1;
        assert(r@ =~= tail.take(i - from).map_values(|c: char| ascii_lower(c)));
    }
    assert(tail.take(tail.len() as int) =~= tail);
    r
}

/// Where no dot follows a dot, what follows it is what follows the last one.
proof fn lemma_after_last_dot(path: Seq<char>, from: int)
    requires
        0 <= from <= path.len(),
        forall|k: int| from <= k < path.len() ==> #[trigger] path[k] != '.',
        from == 0 || path[from - 1] == '.',
    ensures
        after_last_dot(path) == path.skip(from),
    decreases path.len(),
{
    if path.contains('.') {
        let i = path.index_of('.');
        assert(0 <= i < path.len() && path[i] == '.');
        assert(i < from);
        let rest = path.skip(i + 1);
        assert forall|k: int| from - i - 1 <= k < rest.len() implies #[trigger] rest[k] != '.' by {
            assert(rest[k] == path[k + i + 1]);
        }
        if from - i - 1 > 0 {
            assert(rest[from - i - 2] == path[from - 1]);
        }
        lemma_after_last_dot(rest, from - i - 1);
        assert(rest.skip(from - i - 1) =~= path.skip(from));
    } else {
        if from > 0 {
            assert(path.contains(path[from - 1]));
        }
        assert(path.skip(0) =~= path);
    }
}

/// The kind of picture that a path stands for, by its ending.
pub fn mime_type(path: &str) -> (r: &'static str)
    ensures
        r@ == mime_of(after_last_dot(path@).map_values(|c: char| ascii_lower(c))),
{
    let ext = ending(path);
    let e = ext.as_str();
    if same(e, "jpg") || same(e, "jpeg") {
        "image/jpeg"
    } else if same(e, "bmp") {
        "image/bmp"
    } else if same(e, "webp") {
        "image/webp"
    } else if same(e, "gif") {
        "image/gif"
    } else {
        "image/png"
    }
}

/// The bytes of a picture as an address that holds them. Their text has to fit into memory.
pub fn image_data_url(path: &str, bytes: &[u8]) -> (r: String)
    requires
        (bytes@.len() + 2) / 3 * 4 <= isize::MAX,
    ensures
        r@ == "data:"@ + mime_of(after_last_dot(path@).map_values(|c: char| ascii_lower(c)))
            + ";base64,"@ + base64_text(bytes@),
{
    let mut s = message("data:", mime_type(path));
    s.append(";base64,");
    s.append(to_base64(bytes).as_str());
    s
}

} // verus!

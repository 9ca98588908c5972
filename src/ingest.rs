use vstd::prelude::*;
use crate::migration::{
    columns_view, operations_view, ColumnInfo, ColumnModel, MigrationInfo, MigrationModel,
    Operation, OperationModel,
};
use crate::parser::lines_of;
use crate::modifier::{column_definition, type_call};
use crate::text::{chars_of, same_chars, slice_of, string_of, trim, trim_chars, upper_of};

verus! {

/// Whether `s` begins with `p`.
pub open spec fn starts_with(s: Seq<char>, p: Seq<char>) -> bool {
    p.len() <= s.len() && s.take(p.len() as int) == p
}

/// Whether `s` ends with `p`.
pub open spec fn ends_with(s: Seq<char>, p: Seq<char>) -> bool {
    p.len() <= s.len() && s.skip(s.len() - p.len()) == p
}

/// What stands in `s` between the prefix `p` and the suffix `q`, if `s` has both
/// and they do not overlap.
pub open spec fn between(s: Seq<char>, p: Seq<char>, q: Seq<char>) -> Option<Seq<char>> {
    if starts_with(s, p) && ends_with(s, q) && p.len() + q.len() <= s.len() {
        Some(s.subrange(p.len() as int, s.len() - q.len()))
    } else {
        None
    }
}

/// The index of the first `c` in `s` at `i` or later, or the length of `s`.
pub open spec fn index_from(s: Seq<char>, c: char, i: int) -> int
    decreases s.len() - i,
{
    if 0 <= i < s.len() && s[i] != c {
        index_from(s, c, i + 1)
    } else {
        i
    }
}

/// The column type that the builder calls at the start of `s` name, with their length.
pub open spec fn type_prefix(s: Seq<char>) -> Option<(Seq<char>, int)> {
    if starts_with(s, ".string()"@) {
        Some(("string"@, 9))
    } else if starts_with(s, ".integer()"@) {
        Some(("integer"@, 10))
    } else if starts_with(s, ".boolean()"@) {
        Some(("boolean"@, 10))
    } else if starts_with(s, ".text()"@) {
        Some(("text"@, 7))
    } else if starts_with(s, ".timestamp()"@) {
        Some(("timestamp"@, 12))
    } else {
        None
    }
}

/// The column that a builder expression defines: `ColumnDef::new(Alias::NAME)`,
/// a type call, then optionally `.not_null()` and `.default("...")`.
pub open spec fn column_of(def: Seq<char>) -> Option<ColumnModel> {
    let p = "ColumnDef::new(Alias::"@;
    if !starts_with(def, p) {
        None
    } else {
        let close = index_from(def, ')', p.len() as int);
        if close >= def.len() {
            None
        } else {
            let rest = def.skip(close + 1);
            match type_prefix(rest) {
                None => None,
                Some((ty, k)) => {
                    let after_type = rest.skip(k);
                    let not_null = starts_with(after_type, ".not_null()"@);
                    let tail = if not_null {
                        after_type.skip(11)
                    } else {
                        after_type
                    };
                    let base = ColumnModel {
                        name: def.subrange(p.len() as int, close),
                        column_type: ty,
                        nullable: !not_null,
                        default: None,
                    };
                    if tail.len() == 0 {
                        Some(base)
                    } else {
                        match between(tail, ".default(\""@, "\")"@) {
                            Some(d) => Some(ColumnModel { default: Some(d), ..base }),
                            None => None,
                        }
                    }
                },
            }
        }
    }
}

/// A statement being read: a table creation with the columns seen so far, or a
/// table alteration with the column change seen, if any.
pub ghost struct Draft {
    pub creating: bool,
    pub table: Seq<char>,
    pub columns: Seq<ColumnModel>,
    pub change: Option<OperationModel>,
}

/// Where the reader stands: which procedure it is in (none yet, `up`, `down`), the
/// operations read for each, and the statement being read.
pub ghost struct IngestState {
    pub section: nat,
    pub up: Seq<OperationModel>,
    pub down: Seq<OperationModel>,
    pub draft: Option<Draft>,
}

pub open spec fn ingest_start() -> IngestState {
    IngestState { section: 0, up: seq![], down: seq![], draft: None }
}

/// The state with `op` added to the procedure being read, and no statement open.
pub open spec fn emit(st: IngestState, op: OperationModel) -> IngestState {
    if st.section == 1 {
        IngestState { up: st.up.push(op), draft: None, ..st }
    } else if st.section == 2 {
        IngestState { down: st.down.push(op), draft: None, ..st }
    } else {
        IngestState { draft: None, ..st }
    }
}

/// The operation that a finished statement performs.
pub open spec fn draft_operation(d: Draft) -> Option<OperationModel> {
    if d.creating {
        Some(OperationModel::CreateTable { name: d.table, columns: d.columns })
    } else {
        d.change
    }
}

/// What one line of migration source does to the reader's state. Lines of no
/// known shape change nothing.
pub open spec fn ingest_step(st: IngestState, raw: Seq<char>) -> IngestState {
    let t = trim(raw);
    if starts_with(t, "async fn up("@) {
        IngestState { section: 1, draft: None, ..st }
    } else if starts_with(t, "async fn down("@) {
        IngestState { section: 2, draft: None, ..st }
    } else if t == ".create_table("@ {
        IngestState {
            draft: Some(Draft { creating: true, table: seq![], columns: seq![], change: None }),
            ..st
        }
    } else if t == ".alter_table("@ {
        IngestState {
            draft: Some(Draft { creating: false, table: seq![], columns: seq![], change: None }),
            ..st
        }
    } else if t == ".await?;"@ {
        match st.draft {
            Some(d) => match draft_operation(d) {
                Some(op) => emit(st, op),
                None => IngestState { draft: None, ..st },
            },
            None => st,
        }
    } else if between(t, ".drop_table(Table::drop().table("@, "::Table).to_owned())"@) is Some {
        emit(
            st,
            OperationModel::DropTable {
                name: between(t, ".drop_table(Table::drop().table("@, "::Table).to_owned())"@)->Some_0,
            },
        )
    } else {
        match st.draft {
            None => st,
            Some(d) => {
                if between(t, ".table("@, "::Table)"@) is Some {
                    IngestState {
                        draft: Some(Draft { table: between(t, ".table("@, "::Table)"@)->Some_0, ..d }),
                        ..st
                    }
                } else if between(t, ".col("@, ")"@) is Some && column_of(
                    between(t, ".col("@, ")"@)->Some_0,
                ) is Some {
                    let c = column_of(between(t, ".col("@, ")"@)->Some_0)->Some_0;
                    IngestState { draft: Some(Draft { columns: d.columns.push(c), ..d }), ..st }
                } else if between(t, ".add_column("@, ")"@) is Some && column_of(
                    between(t, ".add_column("@, ")"@)->Some_0,
                ) is Some {
                    let c = column_of(between(t, ".add_column("@, ")"@)->Some_0)->Some_0;
                    IngestState {
                        draft: Some(
                            Draft {
                                change: Some(OperationModel::AddColumn { table: d.table, column: c }),
                                ..d
                            },
                        ),
                        ..st
                    }
                } else if between(t, ".drop_column("@, ")"@) is Some {
                    let target = between(t, ".drop_column("@, ")"@)->Some_0;
                    let sep = index_from(target, ':', 0);
                    let column_name = if sep + 1 < target.len() && target[sep + 1] == ':' {
                        target.skip(sep + 2)
                    } else {
                        target
                    };
                    IngestState {
                        draft: Some(
                            Draft {
                                change: Some(
                                    OperationModel::DropColumn { table: d.table, column_name },
                                ),
                                ..d
                            },
                        ),
                        ..st
                    }
                } else {
                    st
                }
            },
        }
    }
}

pub open spec fn ingest_run(st: IngestState, lines: Seq<Seq<char>>) -> IngestState
    decreases lines.len(),
{
    if lines.len() == 0 {
        st
    } else {
        ingest_step(ingest_run(st, lines.drop_last()), lines.last())
    }
}

/// The state after reading a whole migration source text.
pub open spec fn ingest(content: Seq<char>) -> IngestState {
    ingest_run(ingest_start(), lines_of(content))
}

/// The column types that have a builder call of their own.
pub open spec fn is_builder_type(t: Seq<char>) -> bool {
    t == "string"@ || t == "integer"@ || t == "boolean"@ || t == "text"@ || t == "timestamp"@
}

pub(crate) proof fn lemma_index_from_reaches(s: Seq<char>, c: char, i: int, k: int)
    requires
        0 <= i <= k < s.len(),
        s[k] == c,
        forall|j: int| i <= j < k ==> s[j] != c,
    ensures
        index_from(s, c, i) == k,
    decreases k - i,
{
    if i < k {
        lemma_index_from_reaches(s, c, i + 1, k);
    }
}

/// A column definition as the serializer writes it reads back as the same column,
/// its name in capitals, when the capitalised name holds no `)` and the column
/// type has a builder call of its own.
pub proof fn lemma_column_definition_read_back(c: ColumnModel)
    requires
        !upper_of(c.name).contains(')'),
        is_builder_type(c.column_type),
    ensures
        column_of(column_definition(c)) == Some(ColumnModel { name: upper_of(c.name), ..c }),
{
    reveal_strlit("ColumnDef::new(Alias::");
    reveal_strlit(")");
    reveal_strlit(".string()");
    reveal_strlit(".integer()");
    reveal_strlit(".boolean()");
    reveal_strlit(".text()");
    reveal_strlit(".timestamp()");
    reveal_strlit("string");
    reveal_strlit("integer");
    reveal_strlit("boolean");
    reveal_strlit("text");
    reveal_strlit("timestamp");
    reveal_strlit(".not_null()");
    reveal_strlit(".default(\"");
    reveal_strlit("\")");
    let p = "ColumnDef::new(Alias::"@;
    let u = upper_of(c.name);
    let t = type_call(c.column_type);
    let nn = if c.nullable {
        Seq::<char>::empty()
    } else {
        ".not_null()"@
    };
    let dd = match c.default {
        Some(d) => ".default(\""@ + d + "\")"@,
        None => Seq::<char>::empty(),
    };
    let def = column_definition(c);
    let rest = t + nn + dd;
    assert(def =~= p + u + ")"@ + rest);
    assert(def.take(22) =~= p);
    let close: int = 22int + u.len() as int;
    assert forall|j: int| 22 <= j < close implies def[j] != ')' by {
        assert(def[j] == u[j - 22]);
        if u[j - 22] == ')' {
            assert(u.contains(')'));
        }
    }
    assert(def[close] == ')');
    lemma_index_from_reaches(def, ')', 22, close);
    assert(def.skip(close + 1) =~= rest);
    assert(def.subrange(22, close) =~= u);
    let k = t.len() as int;
    assert(rest.take(k) =~= t);
    if c.column_type == "string"@ {
        assert(type_prefix(rest) == Some(("string"@, 9int)));
    } else if c.column_type == "integer"@ {
        assert(rest[1] == 'i');
        assert(type_prefix(rest) == Some(("integer"@, 10int)));
    } else if c.column_type == "boolean"@ {
        assert(rest[1] == 'b');
        assert(type_prefix(rest) == Some(("boolean"@, 10int)));
    } else if c.column_type == "text"@ {
        assert(rest[1] == 't' && rest[2] == 'e');
        assert(type_prefix(rest) == Some(("text"@, 7int)));
    } else {
        assert(rest[1] == 't' && rest[2] == 'i');
        assert(type_prefix(rest) == Some(("timestamp"@, 12int)));
    }
    let after_type = rest.skip(k);
    assert(after_type =~= nn + dd);
    if c.nullable {
        if starts_with(after_type, ".not_null()"@) {
            assert(after_type.take(11)[1] == 'n');
            assert(after_type[1] == 'd');
        }
    } else {
        assert(after_type.take(11) =~= nn);
        assert(after_type.skip(11) =~= dd);
    }
    match c.default {
        Some(d) => {
            assert(dd.take(10) =~= ".default(\""@);
            assert(dd.skip(dd.len() - 2) =~= "\")"@);
            assert(dd.subrange(10, dd.len() - 2) =~= d);
        },
        None => {},
    }
}

/// The text of the given lines, each followed by a line feed.
pub open spec fn joined_lines(ls: Seq<Seq<char>>) -> Seq<char>
    decreases ls.len(),
{
    if ls.len() == 0 {
        Seq::empty()
    } else {
        joined_lines(ls.drop_last()) + ls.last() + seq!['\n']
    }
}

proof fn lemma_lines_of_append(a: Seq<char>, b: Seq<char>)
    requires
        a.len() > 0,
        a.last() == '\n',
    ensures
        lines_of(a + b) == lines_of(a).drop_last() + lines_of(b),
    decreases b.len(),
{
    crate::parser::lemma_lines_nonempty(a);
    if b.len() == 0 {
        assert(a + b =~= a);
        assert(a.drop_last().len() < a.len());
        assert(lines_of(a) == lines_of(a.drop_last()).push(Seq::empty()));
        assert(lines_of(b) == seq![Seq::<char>::empty()]);
        assert(lines_of(a).drop_last() + lines_of(b) =~= lines_of(a));
    } else {
        let b0 = b.drop_last();
        lemma_lines_of_append(a, b0);
        crate::parser::lemma_lines_nonempty(b0);
        assert((a + b).drop_last() =~= a + b0);
        assert((a + b).last() == b.last());
        let x = lines_of(a).drop_last();
        let y = lines_of(b0);
        if b.last() == '\n' {
            assert(lines_of(a + b) =~= x + y.push(Seq::empty()));
        } else {
            assert(lines_of(a + b) =~= x + y.update(y.len() - 1, y.last().push(b.last())));
        }
    }
}

proof fn lemma_lines_of_line(l: Seq<char>)
    requires
        !l.contains('\n'),
    ensures
        lines_of(l) == seq![l],
    decreases l.len(),
{
    if l.len() > 0 {
        let l0 = l.drop_last();
        assert(!l0.contains('\n')) by {
            if l0.contains('\n') {
                let i = choose|i: int| 0 <= i < l0.len() && l0[i] == '\n';
                assert(l[i] == '\n');
            }
        }
        lemma_lines_of_line(l0);
        assert(l[l.len() - 1] == l.last());
        assert(l0.push(l.last()) =~= l);
    } else {
        assert(l =~= Seq::<char>::empty());
    }
}

/// The lines of a text made of whole lines, followed by more text, are those
/// lines followed by the lines of the rest.
pub(crate) proof fn lemma_lines_of_joined(ls: Seq<Seq<char>>, rest: Seq<char>)
    requires
        forall|i: int| 0 <= i < ls.len() ==> !(#[trigger] ls[i]).contains('\n'),
    ensures
        lines_of(joined_lines(ls) + rest) == ls + lines_of(rest),
    decreases ls.len(),
{
    if ls.len() == 0 {
        assert(joined_lines(ls) + rest =~= rest);
        assert(ls + lines_of(rest) =~= lines_of(rest));
    } else {
        let ls0 = ls.drop_last();
        let l = ls.last();
        assert(ls[ls.len() - 1] == l);
        let tail = l + seq!['\n'] + rest;
        assert(joined_lines(ls) + rest =~= joined_lines(ls0) + tail);
        lemma_lines_of_joined(ls0, tail);
        let a = l + seq!['\n'];
        assert(tail =~= a + rest);
        lemma_lines_of_append(a, rest);
        lemma_lines_of_line(l);
        assert(a.drop_last() =~= l);
        assert(lines_of(a) == lines_of(l).push(Seq::empty()));
        assert(ls0 + (seq![l] + lines_of(rest)) =~= ls + lines_of(rest));
    }
}

fn has_prefix(s: &Vec<char>, p: &str) -> (r: bool)
    ensures
        r == starts_with(s@, p@),
{
    let pc = chars_of(p);
    if pc.len() > s.len() {
        return false;
    }
    let mut k: usize = 0;
    while k < pc.len()
        invariant
            pc@ == p@,
            pc@.len() <= s@.len(),
            k <= pc@.len(),
            forall|m: int| 0 <= m < k ==> s@[m] == pc@[m],
        decreases pc@.len() - k,
    {
        if s[k] != pc[k] {
            assert(s@.take(pc@.len() as int)[k as int] != pc@[k as int]);
            return false;
        }
        k = k + 1;
    }
    assert(s@.take(pc@.len() as int) =~= pc@);
    true
}

fn has_suffix(s: &Vec<char>, q: &str) -> (r: bool)
    ensures
        r == ends_with(s@, q@),
{
    let qc = chars_of(q);
    if qc.len() > s.len() {
        return false;
    }
    let n = s.len();
    let start = n - qc.len();
    let mut k: usize = 0;
    while k < qc.len()
        invariant
            qc@ == q@,
            n == s@.len(),
            start + qc@.len() == n,
            k <= qc@.len(),
            forall|m: int| 0 <= m < k ==> s@[start + m] == qc@[m],
        decreases qc@.len() - k,
    {
        if s[start + k] != qc[k] {
            assert(s@.skip(start as int)[k as int] != qc@[k as int]);
            return false;
        }
        k = k + 1;
    }
    assert(s@.skip(start as int) =~= qc@);
    true
}

fn text_between(s: &Vec<char>, p: &str, q: &str) -> (r: Option<Vec<char>>)
    ensures
        match r {
            Some(m) => between(s@, p@, q@) == Some(m@),
            None => between(s@, p@, q@) is None,
        },
{
    if has_prefix(s, p) && has_suffix(s, q) {
        let pl = chars_of(p).len();
        let ql = chars_of(q).len();
        if pl <= s.len() && ql <= s.len() - pl {
            return Some(slice_of(s, pl, s.len() - ql));
        }
    }
    None
}

fn find_char(s: &Vec<char>, c: char, i: usize) -> (r: usize)
    requires
        i <= s@.len(),
    ensures
        r as int == index_from(s@, c, i as int),
        i <= r <= s@.len(),
{
    let mut j = i;
    while j < s.len() && s[j] != c
        invariant
            i <= j <= s@.len(),
            index_from(s@, c, i as int) == index_from(s@, c, j as int),
        decreases s@.len() - j,
    {
        j = j + 1;
    }
    j
}

fn rest_of(s: &Vec<char>, k: usize) -> (r: Vec<char>)
    requires
        k <= s@.len(),
    ensures
        r@ == s@.skip(k as int),
{
    slice_of(s, k, s.len())
}

fn read_type_prefix(s: &Vec<char>) -> (r: Option<(String, usize)>)
    ensures
        match r {
            Some((ty, k)) => type_prefix(s@) == Some((ty@, k as int)) && k <= s@.len(),
            None => type_prefix(s@) is None,
        },
{
    if has_prefix(s, ".string()") {
        proof { reveal_strlit(".string()"); }
        Some(("string".to_owned(), 9))
    } else if has_prefix(s, ".integer()") {
        proof { reveal_strlit(".integer()"); }
        Some(("integer".to_owned(), 10))
    } else if has_prefix(s, ".boolean()") {
        proof { reveal_strlit(".boolean()"); }
        Some(("boolean".to_owned(), 10))
    } else if has_prefix(s, ".text()") {
        proof { reveal_strlit(".text()"); }
        Some(("text".to_owned(), 7))
    } else if has_prefix(s, ".timestamp()") {
        proof { reveal_strlit(".timestamp()"); }
        Some(("timestamp".to_owned(), 12))
    } else {
        None
    }
}

/// Reads a column builder expression, as `column_of` describes it.
pub fn read_column(def: &Vec<char>) -> (r: Option<ColumnInfo>)
    ensures
        match r {
            Some(c) => column_of(def@) == Some(c@),
            None => column_of(def@) is None,
        },
{
    let p = "ColumnDef::new(Alias::";
    proof { reveal_strlit("ColumnDef::new(Alias::"); }
    if !has_prefix(def, p) {
        return None;
    }
    let pl: usize = 22;
    let close = find_char(def, ')', pl);
    if close >= def.len() {
        return None;
    }
    let rest = rest_of(def, close + 1);
    let (ty, k) = match read_type_prefix(&rest) {
        Some(x) => x,
        None => return None,
    };
    let after_type = rest_of(&rest, k);
    let not_null = has_prefix(&after_type, ".not_null()");
    proof { reveal_strlit(".not_null()"); }
    let tail = if not_null {
        rest_of(&after_type, 11)
    } else {
        after_type
    };
    let name = string_of(slice_of(def, pl, close).as_slice());
    if tail.len() == 0 {
        Some(ColumnInfo { name, column_type: ty, nullable: !not_null, default: None })
    } else {
        match text_between(&tail, ".default(\"", "\")") {
            Some(d) => Some(
                ColumnInfo {
                    name,
                    column_type: ty,
                    nullable: !not_null,
                    default: Some(string_of(d.as_slice())),
                },
            ),
            None => None,
        }
    }
}

struct DraftText {
    creating: bool,
    table: String,
    columns: Vec<ColumnInfo>,
    change: Option<Operation>,
}

impl View for DraftText {
    type V = Draft;

    closed spec fn view(&self) -> Draft {
        Draft {
            creating: self.creating,
            table: self.table@,
            columns: columns_view(self.columns@),
            change: match self.change {
                Some(op) => Some(op@),
                None => None,
            },
        }
    }
}

struct Reader {
    section: u8,
    up: Vec<Operation>,
    down: Vec<Operation>,
    draft: Option<DraftText>,
}

impl View for Reader {
    type V = IngestState;

    closed spec fn view(&self) -> IngestState {
        IngestState {
            section: self.section as nat,
            up: operations_view(self.up@),
            down: operations_view(self.down@),
            draft: match self.draft {
                Some(d) => Some(d@),
                None => None,
            },
        }
    }
}

fn emit_operation(st: Reader, op: Operation) -> (r: Reader)
    ensures
        r@ == emit(st@, op@),
{
    let Reader { section, mut up, mut down, draft } = st;
    let ghost old_up = up@;
    let ghost old_down = down@;
    if section == 1 {
        up.push(op);
        assert(operations_view(up@) =~= operations_view(old_up).push(op@));
    } else if section == 2 {
        down.push(op);
        assert(operations_view(down@) =~= operations_view(old_down).push(op@));
    }
    Reader { section, up, down, draft: None }
}

fn finish_draft(d: DraftText) -> (r: Option<Operation>)
    ensures
        match r {
            Some(op) => draft_operation(d@) == Some(op@),
            None => draft_operation(d@) is None,
        },
{
    if d.creating {
        Some(Operation::CreateTable { name: d.table, columns: d.columns })
    } else {
        d.change
    }
}

fn ingest_line(st: Reader, raw: &Vec<char>) -> (r: Reader)
    ensures
        r@ == ingest_step(st@, raw@),
{
    let t = trim_chars(raw);
    proof {
        reveal_strlit(".create_table(");
        reveal_strlit(".alter_table(");
        reveal_strlit(".await?;");
    }
    if has_prefix(&t, "async fn up(") {
        return Reader { section: 1, draft: None, ..st };
    }
    if has_prefix(&t, "async fn down(") {
        return Reader { section: 2, draft: None, ..st };
    }
    if same_chars(&t, ".create_table(") {
        let d = DraftText { creating: true, table: String::new(), columns: Vec::new(), change: None };
        assert(d@.columns =~= seq![]);
        assert(d@.table =~= seq![]);
        return Reader { draft: Some(d), ..st };
    }
    if same_chars(&t, ".alter_table(") {
        let d = DraftText { creating: false, table: String::new(), columns: Vec::new(), change: None };
        assert(d@.columns =~= seq![]);
        assert(d@.table =~= seq![]);
        return Reader { draft: Some(d), ..st };
    }
    if same_chars(&t, ".await?;") {
        let Reader { section, up, down, draft } = st;
        let st2 = Reader { section, up, down, draft: None };
        return match draft {
            Some(d) => match finish_draft(d) {
                Some(op) => emit_operation(st2, op),
                None => st2,
            },
            None => st2,
        };
    }
    match text_between(&t, ".drop_table(Table::drop().table(", "::Table).to_owned())") {
        Some(name) => {
            return emit_operation(st, Operation::DropTable { name: string_of(name.as_slice()) });
        },
        None => {},
    }
    let Reader { section, up, down, draft } = st;
    let d = match draft {
        None => return Reader { section, up, down, draft: None },
        Some(d) => d,
    };
    if let Some(table) = text_between(&t, ".table(", "::Table)") {
        let nd = DraftText { table: string_of(table.as_slice()), ..d };
        return Reader { section, up, down, draft: Some(nd) };
    }
    if let Some(def) = text_between(&t, ".col(", ")") {
        if let Some(c) = read_column(&def) {
            let DraftText { creating, table, mut columns, change } = d;
            let ghost before = columns@;
            columns.push(c);
            assert(columns_view(columns@) =~= columns_view(before).push(c@));
            return Reader {
                section,
                up,
                down,
                draft: Some(DraftText { creating, table, columns, change }),
            };
        }
    }
    if let Some(def) = text_between(&t, ".add_column(", ")") {
        if let Some(c) = read_column(&def) {
            let op = Operation::AddColumn { table: d.table.clone(), column: c };
            let nd = DraftText { change: Some(op), ..d };
            return Reader { section, up, down, draft: Some(nd) };
        }
    }
    if let Some(target) = text_between(&t, ".drop_column(", ")") {
        let sep = find_char(&target, ':', 0);
        let column_name = if sep < target.len() && target.len() - sep > 1 && target[sep + 1] == ':' {
            rest_of(&target, sep + 2)
        } else {
            target
        };
        let op = Operation::DropColumn {
            table: d.table.clone(),
            column_name: string_of(column_name.as_slice()),
        };
        let nd = DraftText { change: Some(op), ..d };
        return Reader { section, up, down, draft: Some(nd) };
    }
    Reader { section, up, down, draft: Some(d) }
}

/// Reads migration source of the shapes that the serializer writes back into an
/// operation log. Lines of other shapes are passed over. Fails when the text holds
/// neither an `up` nor a `down` procedure.
pub struct MigrationParser {}

impl MigrationParser {
    pub fn parse_migration_file(content: &str) -> (r: Result<MigrationInfo, String>)
        ensures
            match r {
                Ok(info) => ingest(content@).section != 0 && info@ == (MigrationModel {
                    table_name: seq![],
                    columns: seq![],
                    up_operations: ingest(content@).up,
                    down_operations: ingest(content@).down,
                }),
                Err(_) => ingest(content@).section == 0,
            },
    {
        let s = chars_of(content);
        let mut st = Reader { section: 0, up: Vec::new(), down: Vec::new(), draft: None };
        let mut line: Vec<char> = Vec::new();
        let mut i: usize = 0;
        proof {
            assert(s@.take(0) =~= Seq::<char>::empty());
            assert(st@.up =~= seq![]);
            assert(st@.down =~= seq![]);
            assert(lines_of(s@.take(0)).drop_last() =~= Seq::<Seq<char>>::empty());
        }
        while i < s.len()
            invariant
                i <= s@.len(),
                s@ == content@,
                lines_of(s@.take(i as int)).len() >= 1,
                st@ == ingest_run(ingest_start(), lines_of(s@.take(i as int)).drop_last()),
                line@ == lines_of(s@.take(i as int)).last(),
            decreases s@.len() - i,
        {
            let c = s[i];
            let ghost prev = lines_of(s@.take(i as int));
            assert(s@.take(i + 1).drop_last() =~= s@.take(i as int));
            if c == '\n' {
                st = ingest_line(st, &line);
                line = Vec::new();
                assert(lines_of(s@.take(i + 1)) == prev.push(Seq::empty()));
                assert(lines_of(s@.take(i + 1)).drop_last() =~= prev);
            } else {
                line.push(c);
                let ghost next = lines_of(s@.take(i + 1));
                assert(next == prev.update(prev.len() - 1, prev.last().push(c)));
                assert(next.drop_last() =~= prev.drop_last());
            }
            i = i + 1;
        }
        assert(s@.take(i as int) =~= s@);
        st = ingest_line(st, &line);
        let Reader { section, up, down, draft } = st;
        if section == 0 {
            return Err("no up or down procedure found".to_owned());
        }
        let info = MigrationInfo {
            table_name: String::new(),
            columns: Vec::new(),
            up_operations: up,
            down_operations: down,
        };
        assert(info@.table_name =~= seq![]);
        assert(info@.columns =~= seq![]);
        Ok(info)
    }
}

} // verus!

//! The team's retro board: columns, card validation, the shared PIN, the
//! board grouped by column, and archiving a board and undoing it.

use vstd::prelude::*;

use crate::calendar::{utc_date, utc_date_text};
use crate::text::{str_eq, trim, trim_seq};

verus! {

broadcast use vstd::string::group_string_axioms;

/// The request header that carries the board's PIN.
pub const PIN_HEADER: &'static str = "x-retro-pin";

/// A column of the board.
#[derive(Debug, Clone, Copy, PartialEq, Eq, Structural)]
pub enum RetroColumn {
    Bien,
    Mejorar,
    Acciones,
    Preguntas,
}

impl RetroColumn {
    /// The column's name, as stored and as sent by the page.
    pub open spec fn name_spec(self) -> Seq<char> {
        match self {
            RetroColumn::Bien => "bien"@,
            RetroColumn::Mejorar => "mejorar"@,
            RetroColumn::Acciones => "acciones"@,
            RetroColumn::Preguntas => "preguntas"@,
        }
    }

    /// The column's name.
    pub fn name(self) -> (s: &'static str)
        ensures
            s@ == self.name_spec(),
    {
        match self {
            RetroColumn::Bien => "bien",
            RetroColumn::Mejorar => "mejorar",
            RetroColumn::Acciones => "acciones",
            RetroColumn::Preguntas => "preguntas",
        }
    }

    /// The column called `name`, if there is one.
    pub fn parse(name: &str) -> (r: Option<RetroColumn>)
        ensures
            r == column_of(name@),
    {
        if str_eq(name, "bien") {
            Some(RetroColumn::Bien)
        } else if str_eq(name, "mejorar") {
            Some(RetroColumn::Mejorar)
        } else if str_eq(name, "acciones") {
            Some(RetroColumn::Acciones)
        } else if str_eq(name, "preguntas") {
            Some(RetroColumn::Preguntas)
        } else {
            None
        }
    }
}

/// The column called `name`, if there is one.
pub open spec fn column_of(name: Seq<char>) -> Option<RetroColumn> {
    if name == "bien"@ {
        Some(RetroColumn::Bien)
    } else if name == "mejorar"@ {
        Some(RetroColumn::Mejorar)
    } else if name == "acciones"@ {
        Some(RetroColumn::Acciones)
    } else if name == "preguntas"@ {
        Some(RetroColumn::Preguntas)
    } else {
        None
    }
}

/// The four column names are distinct, and each names its own column.
pub proof fn lemma_column_names()
    ensures
        "bien"@ != "mejorar"@,
        "bien"@ != "acciones"@,
        "bien"@ != "preguntas"@,
        "mejorar"@ != "acciones"@,
        "mejorar"@ != "preguntas"@,
        "acciones"@ != "preguntas"@,
        forall|c: RetroColumn| column_of(#[trigger] c.name_spec()) == Some(c),
{
    reveal_strlit("bien");
    reveal_strlit("mejorar");
    reveal_strlit("acciones");
    reveal_strlit("preguntas");
    assert("bien"@.len() == 4);
    assert("mejorar"@.len() == 7);
    assert("acciones"@.len() == 8);
    assert("preguntas"@.len() == 9);
}

/// The columns in the order the board lists them.
pub open spec fn column_order() -> Seq<RetroColumn> {
    seq![RetroColumn::Bien, RetroColumn::Mejorar, RetroColumn::Acciones, RetroColumn::Preguntas]
}

/// Why a request to the board was turned away before reaching it.
#[derive(Debug, Clone, Copy, PartialEq, Eq, Structural)]
pub enum PinRejection {
    /// No PIN is configured: the board refuses everything.
    NotConfigured,
    /// The PIN sent does not match.
    Wrong,
}

impl PinRejection {
    /// The HTTP status of the answer.
    pub fn status(self) -> (code: u16)
        ensures
            code == (match self {
                PinRejection::NotConfigured => 503u16,
                PinRejection::Wrong => 401u16,
            }),
    {
        match self {
            PinRejection::NotConfigured => 503,
            PinRejection::Wrong => 401,
        }
    }

    /// The message of the answer.
    pub fn message(self) -> (m: &'static str)
        ensures
            m@ == (match self {
                PinRejection::NotConfigured => "RETRO_PIN no esta configurada"@,
                PinRejection::Wrong => "PIN incorrecto"@,
            }),
    {
        match self {
            PinRejection::NotConfigured => "RETRO_PIN no esta configurada",
            PinRejection::Wrong => "PIN incorrecto",
        }
    }
}

/// Checks the PIN sent with a request (`provided`, empty when the header is
/// missing) against the configured one. With no PIN configured everything is
/// refused rather than left open.
pub fn check(configured: &str, provided: &str) -> (r: Result<(), PinRejection>)
    ensures
        configured@.len() == 0 ==> r == Err::<(), PinRejection>(PinRejection::NotConfigured),
        configured@.len() > 0 ==> (r is Ok <==> provided@ == configured@),
        configured@.len() > 0 && provided@ != configured@ ==> r == Err::<(), PinRejection>(
            PinRejection::Wrong,
        ),
{
    if configured.is_empty() {
        return Err(PinRejection::NotConfigured);
    }
    if str_eq(provided, configured) {
        Ok(())
    } else {
        Err(PinRejection::Wrong)
    }
}

/// A request to add a card.
pub struct CreateCardRequest {
    pub column: String,
    pub content: String,
}

/// Why a new card was refused.
#[derive(Debug, Clone, Copy, PartialEq, Eq, Structural)]
pub enum CardRejection {
    /// The column is not one of the board's.
    InvalidColumn,
    /// The content is empty or only whitespace.
    EmptyContent,
}

impl CardRejection {
    /// The message of the answer (a 400).
    pub fn message(self) -> (m: &'static str)
        ensures
            m@ == (match self {
                CardRejection::InvalidColumn => "columna invalida"@,
                CardRejection::EmptyContent => "el contenido no puede estar vacio"@,
            }),
    {
        match self {
            CardRejection::InvalidColumn => "columna invalida",
            CardRejection::EmptyContent => "el contenido no puede estar vacio",
        }
    }
}

/// Checks a new card: its column must be one of the board's and its content,
/// trimmed, must not be empty. Gives the column and the trimmed content to
/// store.
pub fn validate_new_card(req: &CreateCardRequest) -> (r: Result<(RetroColumn, String), CardRejection>)
    ensures
        column_of(req.column@) is None ==> r == Err::<(RetroColumn, String), CardRejection>(
            CardRejection::InvalidColumn,
        ),
        column_of(req.column@) is Some && trim_seq(req.content@).len() == 0 ==> r == Err::<
            (RetroColumn, String),
            CardRejection,
        >(CardRejection::EmptyContent),
        column_of(req.column@) is Some && trim_seq(req.content@).len() > 0 ==> (r matches Ok(
            (c, t),
        ) && Some(c) == column_of(req.column@) && t@ == trim_seq(req.content@)),
{
    let column = match RetroColumn::parse(req.column.as_str()) {
        Some(c) => c,
        None => return Err(CardRejection::InvalidColumn),
    };
    let content = trim(req.content.as_str());
    if content.as_str().is_empty() {
        return Err(CardRejection::EmptyContent);
    }
    Ok((column, content))
}

/// A card of the board as read from storage, with its column's name.
pub struct RetroRow {
    pub id: i32,
    pub column: String,
    pub content: String,
    /// Creation time, in milliseconds since the Unix epoch.
    pub created_at_ms: i64,
}

/// A card as the board shows it, under its column.
pub struct BoardCard {
    pub id: i32,
    pub content: String,
    /// Creation time, in milliseconds since the Unix epoch.
    pub created_at_ms: i64,
}

/// The plain value of a stored card: id, column name, content, time.
pub type RowView = (i32, Seq<char>, Seq<char>, i64);

/// The plain value of a shown card: id, content, time.
pub type CardView = (i32, Seq<char>, i64);

impl View for RetroRow {
    type V = RowView;

    open spec fn view(&self) -> RowView {
        (self.id, self.column@, self.content@, self.created_at_ms)
    }
}

impl View for BoardCard {
    type V = CardView;

    open spec fn view(&self) -> CardView {
        (self.id, self.content@, self.created_at_ms)
    }
}

/// The board: the cards of each column, in the order they were read.
pub struct Board {
    pub bien: Vec<BoardCard>,
    pub mejorar: Vec<BoardCard>,
    pub acciones: Vec<BoardCard>,
    pub preguntas: Vec<BoardCard>,
}

/// The plain values of a list of shown cards.
pub open spec fn card_views(cards: Seq<BoardCard>) -> Seq<CardView> {
    cards.map_values(|c: BoardCard| c@)
}

/// The plain values of a list of stored cards.
pub open spec fn row_views(rows: Seq<RetroRow>) -> Seq<RowView> {
    rows.map_values(|r: RetroRow| r@)
}

impl Board {
    /// The cards of column `c`.
    pub open spec fn column(&self, c: RetroColumn) -> Seq<CardView> {
        match c {
            RetroColumn::Bien => card_views(self.bien@),
            RetroColumn::Mejorar => card_views(self.mejorar@),
            RetroColumn::Acciones => card_views(self.acciones@),
            RetroColumn::Preguntas => card_views(self.preguntas@),
        }
    }
}

/// The cards among `rows` whose column is called `name`, in order, as the
/// board shows them.
pub open spec fn cards_in(rows: Seq<RowView>, name: Seq<char>) -> Seq<CardView>
    decreases rows.len(),
{
    if rows.len() == 0 {
        Seq::empty()
    } else {
        let before = cards_in(rows.drop_last(), name);
        let r = rows.last();
        if r.1 == name {
            before.push((r.0, r.2, r.3))
        } else {
            before
        }
    }
}

fn show_card(row: &RetroRow) -> (c: BoardCard)
    ensures
        c@ == (row@.0, row@.2, row@.3),
{
    BoardCard { id: row.id, content: row.content.clone(), created_at_ms: row.created_at_ms }
}

/// Groups the board's cards by column, keeping their order. Cards whose
/// column is not one of the board's are left out.
pub fn group_by_column(rows: &Vec<RetroRow>) -> (b: Board)
    ensures
        forall|c: RetroColumn| #[trigger] b.column(c) == cards_in(row_views(rows@), c.name_spec()),
{
    let mut b = Board { bien: Vec::new(), mejorar: Vec::new(), acciones: Vec::new(), preguntas: Vec::new() };
    let ghost views = row_views(rows@);
    let mut i: usize = 0;
    while i < rows.len()
        invariant
            i <= rows@.len(),
            views == row_views(rows@),
            forall|c: RetroColumn| #[trigger] b.column(c) == cards_in(views.take(i as int), c.name_spec()),
        decreases rows@.len() - i,
    {
        let row = &rows[i];
        let ghost before = b;
        proof {
            lemma_column_names();
        }
        assert(views.take(i + 1).drop_last() =~= views.take(i as int));
        assert(views.take(i + 1).last() == row@);
        match RetroColumn::parse(row.column.as_str()) {
            Some(RetroColumn::Bien) => b.bien.push(show_card(row)),
            Some(RetroColumn::Mejorar) => b.mejorar.push(show_card(row)),
            Some(RetroColumn::Acciones) => b.acciones.push(show_card(row)),
            Some(RetroColumn::Preguntas) => b.preguntas.push(show_card(row)),
            None => {},
        }
        assert forall|c: RetroColumn| #[trigger] b.column(c) == cards_in(views.take(i + 1), c.name_spec()) by {
            let name = c.name_spec();
            assert(before.column(c) == cards_in(views.take(i as int), name));
            assert(cards_in(views.take(i + 1), name) == if row@.1 == name {
                cards_in(views.take(i as int), name).push((row@.0, row@.2, row@.3))
            } else {
                cards_in(views.take(i as int), name)
            });
            assert(card_views(b.bien@) =~= if row@.1 == "bien"@ {
                card_views(before.bien@).push((row@.0, row@.2, row@.3))
            } else {
                card_views(before.bien@)
            });
            assert(card_views(b.mejorar@) =~= if row@.1 == "mejorar"@ {
                card_views(before.mejorar@).push((row@.0, row@.2, row@.3))
            } else {
                card_views(before.mejorar@)
            });
            assert(card_views(b.acciones@) =~= if row@.1 == "acciones"@ {
                card_views(before.acciones@).push((row@.0, row@.2, row@.3))
            } else {
                card_views(before.acciones@)
            });
            assert(card_views(b.preguntas@) =~= if row@.1 == "preguntas"@ {
                card_views(before.preguntas@).push((row@.0, row@.2, row@.3))
            } else {
                card_views(before.preguntas@)
            });
        }
        i = i + 1;
    }
    assert(views.take(rows@.len() as int) =~= views);
    b
}

/// A card to put back on the board when an archive is undone: its column
/// and its content.
pub type RestoreView = (RetroColumn, Seq<char>);

/// The plain values of cards to put back.
pub open spec fn restore_views(cards: Seq<(RetroColumn, String)>) -> Seq<RestoreView> {
    cards.map_values(|p: (RetroColumn, String)| (p.0, p.1@))
}

/// The cards of `cards`, all of column `c`, that undoing an archive puts
/// back: those whose content is not empty, in order.
pub open spec fn restorable(cards: Seq<CardView>, c: RetroColumn) -> Seq<RestoreView>
    decreases cards.len(),
{
    if cards.len() == 0 {
        Seq::empty()
    } else {
        let before = restorable(cards.drop_last(), c);
        if cards.last().1.len() > 0 {
            before.push((c, cards.last().1))
        } else {
            before
        }
    }
}

/// Everything undoing the archive of `board` puts back, column by column in
/// the board's order.
pub open spec fn restore_plan(board: Board) -> Seq<RestoreView> {
    restorable(board.column(RetroColumn::Bien), RetroColumn::Bien) + restorable(
        board.column(RetroColumn::Mejorar),
        RetroColumn::Mejorar,
    ) + restorable(board.column(RetroColumn::Acciones), RetroColumn::Acciones) + restorable(
        board.column(RetroColumn::Preguntas),
        RetroColumn::Preguntas,
    )
}

fn append_restorable(cards: &Vec<BoardCard>, c: RetroColumn, out: &mut Vec<(RetroColumn, String)>)
    ensures
        restore_views(final(out)@) == restore_views(old(out)@) + restorable(card_views(cards@), c),
{
    let ghost start = restore_views(out@);
    let ghost views = card_views(cards@);
    let mut i: usize = 0;
    while i < cards.len()
        invariant
            i <= cards@.len(),
            views == card_views(cards@),
            restore_views(out@) == start + restorable(views.take(i as int), c),
        decreases cards@.len() - i,
    {
        let ghost before = restore_views(out@);
        assert(views.take(i + 1).drop_last() =~= views.take(i as int));
        assert(views.take(i + 1).last() == cards@[i as int]@);
        if !cards[i].content.as_str().is_empty() {
            out.push((c, cards[i].content.clone()));
            assert(restore_views(out@) =~= before.push((c, cards@[i as int].content@)));
        }
        i = i + 1;
    }
    assert(views.take(cards@.len() as int) =~= views);
}

/// What undoing the archive of `board` puts back on the board: the cards
/// with content, column by column in the board's order.
pub fn cards_to_restore(board: &Board) -> (r: Vec<(RetroColumn, String)>)
    ensures
        restore_views(r@) == restore_plan(*board),
{
    let mut r: Vec<(RetroColumn, String)> = Vec::new();
    assert(restore_views(r@) =~= Seq::<RestoreView>::empty());
    append_restorable(&board.bien, RetroColumn::Bien, &mut r);
    append_restorable(&board.mejorar, RetroColumn::Mejorar, &mut r);
    append_restorable(&board.acciones, RetroColumn::Acciones, &mut r);
    append_restorable(&board.preguntas, RetroColumn::Preguntas, &mut r);
    assert(restore_views(r@) =~= restore_plan(*board));
    r
}

/// The cards among `rows` of column `c` that have content, in order, as
/// they are put back.
pub open spec fn rows_to_restore(rows: Seq<RowView>, c: RetroColumn) -> Seq<RestoreView>
    decreases rows.len(),
{
    if rows.len() == 0 {
        Seq::empty()
    } else {
        let before = rows_to_restore(rows.drop_last(), c);
        let r = rows.last();
        if r.1 == c.name_spec() && r.2.len() > 0 {
            before.push((c, r.2))
        } else {
            before
        }
    }
}

proof fn lemma_restorable_cards_in(rows: Seq<RowView>, c: RetroColumn)
    ensures
        restorable(cards_in(rows, c.name_spec()), c) == rows_to_restore(rows, c),
    decreases rows.len(),
{
    if rows.len() > 0 {
        lemma_restorable_cards_in(rows.drop_last(), c);
        let r = rows.last();
        if r.1 == c.name_spec() {
            let cards = cards_in(rows, c.name_spec());
            assert(cards.drop_last() =~= cards_in(rows.drop_last(), c.name_spec()));
        }
    }
}

/// Archiving a board and undoing it puts back every card that had content,
/// in its own column, in the order it was on the board; cards of unknown
/// columns are not put back.
pub proof fn undo_restores_archived_cards(rows: Seq<RowView>, board: Board)
    requires
        forall|c: RetroColumn| #[trigger] board.column(c) == cards_in(rows, c.name_spec()),
    ensures
        restore_plan(board) == rows_to_restore(rows, RetroColumn::Bien) + rows_to_restore(
            rows,
            RetroColumn::Mejorar,
        ) + rows_to_restore(rows, RetroColumn::Acciones) + rows_to_restore(
            rows,
            RetroColumn::Preguntas,
        ),
{
    assert(board.column(RetroColumn::Bien) == cards_in(rows, RetroColumn::Bien.name_spec()));
    assert(board.column(RetroColumn::Mejorar) == cards_in(rows, RetroColumn::Mejorar.name_spec()));
    assert(board.column(RetroColumn::Acciones) == cards_in(rows, RetroColumn::Acciones.name_spec()));
    assert(board.column(RetroColumn::Preguntas) == cards_in(rows, RetroColumn::Preguntas.name_spec()));
    lemma_restorable_cards_in(rows, RetroColumn::Bien);
    lemma_restorable_cards_in(rows, RetroColumn::Mejorar);
    lemma_restorable_cards_in(rows, RetroColumn::Acciones);
    lemma_restorable_cards_in(rows, RetroColumn::Preguntas);
}

/// A request to archive the board, with an optional label.
pub struct ArchiveRequest {
    pub label: Option<String>,
}

/// The label an archive is stored under: the label sent, unless it is
/// missing or blank, and then the date `date`.
pub open spec fn archive_label_of(label: Option<Seq<char>>, date: Seq<char>) -> Seq<char> {
    match label {
        Some(l) if trim_seq(l).len() > 0 => l,
        _ => date,
    }
}

/// The label to store an archive made at the unix time `now_secs` under:
/// the label sent, or, when it is missing or blank, the UTC date
/// (`YYYY-MM-DD`).
pub fn archive_label(req: &ArchiveRequest, now_secs: u64) -> (s: String)
    ensures
        s@ == archive_label_of(
            match req.label {
                Some(l) => Some(l@),
                None => None,
            },
            utc_date_text(now_secs as nat),
        ),
{
    match &req.label {
        Some(l) => {
            let t = trim(l.as_str());
            if !t.as_str().is_empty() {
                return l.clone();
            }
        },
        None => {},
    }
    utc_date(now_secs)
}

/// Why an archive or its undoing was refused.
#[derive(Debug, Clone, Copy, PartialEq, Eq, Structural)]
pub enum ArchiveRejection {
    /// The board has no card to archive.
    EmptyBoard,
    /// No archive exists to undo.
    NothingToUndo,
}

impl ArchiveRejection {
    /// The message of the answer (a 400).
    pub fn message(self) -> (m: &'static str)
        ensures
            m@ == (match self {
                ArchiveRejection::EmptyBoard => "el tablero esta vacio, no hay nada para archivar"@,
                ArchiveRejection::NothingToUndo => "no hay ningun archivo para deshacer"@,
            }),
    {
        match self {
            ArchiveRejection::EmptyBoard => "el tablero esta vacio, no hay nada para archivar",
            ArchiveRejection::NothingToUndo => "no hay ningun archivo para deshacer",
        }
    }
}

/// The sprint counter after archiving while it reads `current`: the number
/// archived is `current` and the counter moves on to `current + 1`. `None`
/// when that does not fit in the counter's `i32` column, which the
/// database refuses.
pub open spec fn advanced_sprint(current: int) -> Option<(int, int)> {
    if current < i32::MAX {
        Some((current, current + 1))
    } else {
        None
    }
}

/// The sprint counter after undoing while it reads `current`: one less, but
/// never below 1. `None` when `current - 1` does not fit in the counter's
/// `i32` column, which the database refuses.
pub open spec fn rewound_sprint(current: int) -> Option<int> {
    if current <= i32::MIN {
        None
    } else if current - 1 < 1 {
        Some(1)
    } else {
        Some(current - 1)
    }
}

/// Archiving while the counter reads `current`: the sprint number archived
/// and the counter's next value.
pub fn advance_sprint(current: i32) -> (r: Option<(i32, i32)>)
    ensures
        match advanced_sprint(current as int) {
            None => r is None,
            Some((a, n)) => r matches Some((ra, rn)) && ra == a && rn == n,
        },
{
    if current < i32::MAX {
        Some((current, current + 1))
    } else {
        None
    }
}

/// Undoing while the counter reads `current`: the counter's new value.
pub fn rewind_sprint(current: i32) -> (r: Option<i32>)
    ensures
        match rewound_sprint(current as int) {
            None => r is None,
            Some(n) => r matches Some(rn) && rn == n,
        },
{
    if current == i32::MIN {
        None
    } else if current - 1 < 1 {
        Some(1)
    } else {
        Some(current - 1)
    }
}

/// What undoing the latest archive does: the cards to add back to the
/// board, the archive to delete, and the sprint counter's new value.
pub struct UndoPlan {
    pub restore: Vec<(RetroColumn, String)>,
    pub delete_archive: i32,
    pub sprint: i32,
}

/// Why undoing cannot go ahead.
#[derive(Debug, Clone, Copy, PartialEq, Eq, Structural)]
pub enum UndoRefusal {
    /// There is no archive (a 400 with `ArchiveRejection::NothingToUndo`).
    Rejected(ArchiveRejection),
    /// The sprint counter cannot go back (the database refuses the update).
    CounterOutOfRange,
}

/// Plans the undoing of the latest archive, given its id and its board
/// (`None` when nothing has been archived) and the sprint counter. With no
/// archive nothing is to change and the answer is `NothingToUndo`;
/// otherwise the archive's cards with content go back, column by column in
/// the board's order, the archive is deleted and the counter goes back one,
/// never below 1.
pub fn plan_undo(latest: Option<(i32, &Board)>, current_sprint: i32) -> (r: Result<UndoPlan, UndoRefusal>)
    ensures
        latest is None ==> r == Err::<UndoPlan, UndoRefusal>(
            UndoRefusal::Rejected(ArchiveRejection::NothingToUndo),
        ),
        latest is Some && rewound_sprint(current_sprint as int) is None ==> r == Err::<
            UndoPlan,
            UndoRefusal,
        >(UndoRefusal::CounterOutOfRange),
        latest is Some && rewound_sprint(current_sprint as int) is Some ==> (r matches Ok(p)
            && restore_views(p.restore@) == restore_plan(*latest.unwrap().1) && p.delete_archive
            == latest.unwrap().0 && p.sprint == rewound_sprint(current_sprint as int)->0),
{
    match latest {
        None => Err(UndoRefusal::Rejected(ArchiveRejection::NothingToUndo)),
        Some((id, board)) => match rewind_sprint(current_sprint) {
            None => Err(UndoRefusal::CounterOutOfRange),
            Some(n) => Ok(UndoPlan { restore: cards_to_restore(board), delete_archive: id, sprint: n }),
        },
    }
}

/// Archiving a board of sprint `n` (counter at `n`, at least 1) and then
/// undoing it puts the counter back at `n`, and the undo answers with `n`;
/// the cards put back are those of `undo_restores_archived_cards`.
pub proof fn undo_rewinds_archived_sprint(n: int)
    requires
        1 <= n < i32::MAX,
    ensures
        advanced_sprint(n) == Some((n, n + 1)),
        rewound_sprint(n + 1) == Some(n),
{
}

} // verus!

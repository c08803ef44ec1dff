use backend_website::retro::{
    advance_sprint, archive_label, cards_to_restore, check, group_by_column, plan_undo, rewind_sprint,
    validate_new_card, ArchiveRejection, ArchiveRequest, BoardCard, Board, CardRejection,
    CreateCardRequest, PinRejection, RetroColumn, RetroRow, UndoRefusal, PIN_HEADER,
};

fn row(id: i32, column: &str, content: &str, at: i64) -> RetroRow {
    RetroRow { id, column: column.to_string(), content: content.to_string(), created_at_ms: at }
}

fn contents(cards: &[BoardCard]) -> Vec<&str> {
    cards.iter().map(|c| c.content.as_str()).collect()
}

#[test]
fn board_groups_cards_by_column_in_order() {
    let rows = vec![
        row(1, "bien", "buen deploy", 10),
        row(2, "mejorar", "tests lentos", 11),
        row(3, "otra", "se descarta", 12),
        row(4, "bien", "pairing", 13),
        row(5, "preguntas", "y el feriado?", 14),
    ];
    let board = group_by_column(&rows);
    assert_eq!(contents(&board.bien), vec!["buen deploy", "pairing"]);
    assert_eq!(board.bien[1].id, 4);
    assert_eq!(board.bien[1].created_at_ms, 13);
    assert_eq!(contents(&board.mejorar), vec!["tests lentos"]);
    assert!(board.acciones.is_empty());
    assert_eq!(contents(&board.preguntas), vec!["y el feriado?"]);
}

#[test]
fn undo_restores_archived_cards_with_content() {
    let rows = vec![
        row(1, "acciones", "automatizar", 1),
        row(2, "bien", "", 2),
        row(3, "bien", "retro corta", 3),
        row(4, "nada", "x", 4),
        row(5, "mejorar", "docs", 5),
    ];
    let board = group_by_column(&rows);
    let restored = cards_to_restore(&board);
    let got: Vec<(RetroColumn, &str)> = restored.iter().map(|(c, s)| (*c, s.as_str())).collect();
    assert_eq!(
        got,
        vec![
            (RetroColumn::Bien, "retro corta"),
            (RetroColumn::Mejorar, "docs"),
            (RetroColumn::Acciones, "automatizar"),
        ]
    );
}

#[test]
fn restoring_an_empty_board_restores_nothing() {
    let board = Board { bien: vec![], mejorar: vec![], acciones: vec![], preguntas: vec![] };
    assert!(cards_to_restore(&board).is_empty());
}

#[test]
fn pin_check_refuses_when_unconfigured_or_wrong() {
    assert_eq!(check("", ""), Err(PinRejection::NotConfigured));
    assert_eq!(check("", "1234"), Err(PinRejection::NotConfigured));
    assert_eq!(check("1234", ""), Err(PinRejection::Wrong));
    assert_eq!(check("1234", "4321"), Err(PinRejection::Wrong));
    assert_eq!(check("1234", "1234"), Ok(()));
    assert_eq!(PinRejection::NotConfigured.status(), 503);
    assert_eq!(PinRejection::NotConfigured.message(), "RETRO_PIN no esta configurada");
    assert_eq!(PinRejection::Wrong.status(), 401);
    assert_eq!(PinRejection::Wrong.message(), "PIN incorrecto");
    assert_eq!(PIN_HEADER, "x-retro-pin");
}

#[test]
fn new_cards_need_a_column_and_content() {
    let bad_column = CreateCardRequest { column: "Bien".to_string(), content: "hola".to_string() };
    assert!(matches!(validate_new_card(&bad_column), Err(CardRejection::InvalidColumn)));
    let blank = CreateCardRequest { column: "acciones".to_string(), content: "  \n ".to_string() };
    assert!(matches!(validate_new_card(&blank), Err(CardRejection::EmptyContent)));
    let ok = CreateCardRequest { column: "preguntas".to_string(), content: "  que sigue? ".to_string() };
    match validate_new_card(&ok) {
        Ok((column, content)) => {
            assert_eq!(column, RetroColumn::Preguntas);
            assert_eq!(content, "que sigue?");
        }
        Err(_) => panic!("card should be accepted"),
    }
    assert_eq!(CardRejection::InvalidColumn.message(), "columna invalida");
    assert_eq!(CardRejection::EmptyContent.message(), "el contenido no puede estar vacio");
}

#[test]
fn columns_have_names() {
    assert_eq!(RetroColumn::Bien.name(), "bien");
    assert_eq!(RetroColumn::Mejorar.name(), "mejorar");
    assert_eq!(RetroColumn::Acciones.name(), "acciones");
    assert_eq!(RetroColumn::Preguntas.name(), "preguntas");
    assert_eq!(RetroColumn::parse("mejorar"), Some(RetroColumn::Mejorar));
    assert_eq!(RetroColumn::parse("mejorar "), None);
}

#[test]
fn archive_label_defaults_to_the_date() {
    assert_eq!(archive_label(&ArchiveRequest { label: None }, 1_700_000_000), "2023-11-14");
    assert_eq!(archive_label(&ArchiveRequest { label: Some("   ".to_string()) }, 0), "1970-01-01");
    assert_eq!(archive_label(&ArchiveRequest { label: Some(" Q3 cierre ".to_string()) }, 3), " Q3 cierre ");
    assert_eq!(archive_label(&ArchiveRequest { label: None }, 951_782_400), "2000-02-29");
    assert_eq!(ArchiveRejection::EmptyBoard.message(), "el tablero esta vacio, no hay nada para archivar");
    assert_eq!(ArchiveRejection::NothingToUndo.message(), "no hay ningun archivo para deshacer");
}

#[test]
fn sprint_counter_moves_on_and_back() {
    assert_eq!(advance_sprint(4), Some((4, 5)));
    assert_eq!(advance_sprint(i32::MAX), None);
    assert_eq!(rewind_sprint(5), Some(4));
    assert_eq!(rewind_sprint(1), Some(1));
    assert_eq!(rewind_sprint(-3), Some(1));
    assert_eq!(rewind_sprint(i32::MIN), None);
}

#[test]
fn undo_plans() {
    assert_eq!(
        plan_undo(None, 5).err(),
        Some(UndoRefusal::Rejected(ArchiveRejection::NothingToUndo))
    );
    let rows = vec![row(1, "bien", "a", 10), row(2, "acciones", "", 11), row(3, "preguntas", "c", 12)];
    let board = group_by_column(&rows);
    let plan = plan_undo(Some((9, &board)), 5).unwrap();
    assert_eq!(plan.delete_archive, 9);
    assert_eq!(plan.sprint, 4);
    let restored: Vec<(RetroColumn, &str)> = plan.restore.iter().map(|(c, t)| (*c, t.as_str())).collect();
    assert_eq!(restored, vec![(RetroColumn::Bien, "a"), (RetroColumn::Preguntas, "c")]);
    assert_eq!(plan_undo(Some((9, &board)), i32::MIN).err(), Some(UndoRefusal::CounterOutOfRange));
}

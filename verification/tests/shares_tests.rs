use backend_website::shares::{
    check_quantity, check_ready, forecast_horizon, is_valid_ticker, needs_market_price,
    needs_preparation, normalize_ticker, price_unavailable_message, quantity_change_operation,
    service_url, unavailable_reason, validate_new_position, ModelReply, OperationType,
    PreparationSlots, ShareRequestError, MAX_CONCURRENT_PREPARATIONS,
};

#[test]
fn tickers_are_trimmed_and_uppercased() {
    assert_eq!(normalize_ticker("  ggal "), "GGAL");
    assert_eq!(normalize_ticker("brk.b"), "BRK.B");
}

#[test]
fn ticker_shape_is_checked() {
    assert!(is_valid_ticker("GGAL"));
    assert!(is_valid_ticker("BRK.B"));
    assert!(is_valid_ticker("A"));
    assert!(is_valid_ticker("ABCDEFGHIJKLMNOPQRST"));
    assert!(!is_valid_ticker("ABCDEFGHIJKLMNOPQRSTU"));
    assert!(!is_valid_ticker(""));
    assert!(!is_valid_ticker("..."));
    assert!(!is_valid_ticker("GG AL"));
    assert!(!is_valid_ticker("GGAL-B"));
    assert!(!is_valid_ticker("ÑANDÚ"));
}

#[test]
fn new_positions_are_validated() {
    assert_eq!(validate_new_position(" ggal ", 10), Ok("GGAL".to_string()));
    assert_eq!(validate_new_position("bad ticker", 10), Err(ShareRequestError::InvalidTicker));
    assert_eq!(validate_new_position("bad ticker", 0), Err(ShareRequestError::InvalidTicker));
    assert_eq!(validate_new_position("YPF", 0), Err(ShareRequestError::InvalidQuantity));
    assert_eq!(validate_new_position("YPF", -3), Err(ShareRequestError::InvalidQuantity));
    assert_eq!(check_quantity(1), Ok(()));
    assert_eq!(check_quantity(0), Err(ShareRequestError::InvalidQuantity));
}

#[test]
fn only_ready_tickers_can_be_held() {
    let ready = vec!["GGAL".to_string(), "YPFD".to_string()];
    assert_eq!(check_ready(Some(&ready), "YPFD"), Ok(()));
    assert_eq!(check_ready(Some(&ready), "BMA"), Err(ShareRequestError::NotReady));
    assert_eq!(check_ready(None, "GGAL"), Err(ShareRequestError::ReadinessUnknown));
}

#[test]
fn share_errors_have_their_answers() {
    assert_eq!(ShareRequestError::InvalidTicker.status(), 400);
    assert_eq!(
        ShareRequestError::InvalidTicker.message(),
        "Invalid ticker. Must be 1-20 alphanumeric characters, optionally with '.' separators."
    );
    assert_eq!(ShareRequestError::InvalidQuantity.message(), "Quantity must be a positive integer.");
    assert_eq!(ShareRequestError::InvalidEntryPrice.message(), "Entry price must be a positive number.");
    assert_eq!(ShareRequestError::NotReady.status(), 422);
    assert_eq!(
        ShareRequestError::NotReady.message(),
        "Este ticker no tiene suficiente histórico para generar predicciones."
    );
    assert_eq!(ShareRequestError::ReadinessUnknown.status(), 503);
    assert_eq!(ShareRequestError::ReadinessUnknown.message(), "No se pudo validar el ticker.");
    assert_eq!(ShareRequestError::TickerNotFound.status(), 404);
    assert_eq!(ShareRequestError::TickerNotFound.message(), "Ticker not found.");
    assert_eq!(ShareRequestError::AlreadyHeld.status(), 409);
    assert_eq!(
        ShareRequestError::AlreadyHeld.message(),
        "Share already exists for that ticker. Use PUT to update the quantity."
    );
    assert_eq!(ShareRequestError::ShareNotFound.status(), 404);
    assert_eq!(ShareRequestError::ShareNotFound.message(), "Share not found");
}

#[test]
fn quantity_changes_become_ledger_operations() {
    assert_eq!(quantity_change_operation(25, 10), Some((OperationType::Buy, 15)));
    assert_eq!(quantity_change_operation(4, 10), Some((OperationType::Sell, 6)));
    assert_eq!(quantity_change_operation(10, 10), None);
    assert_eq!(OperationType::Buy.as_db_str(), "buy");
    assert_eq!(OperationType::Sell.as_db_str(), "sell");
    assert!(needs_market_price(OperationType::Sell, true));
    assert!(needs_market_price(OperationType::Buy, false));
    assert!(!needs_market_price(OperationType::Buy, true));
}

#[test]
fn only_an_untrained_model_asks_for_preparation() {
    assert!(needs_preparation(Some("Error: todavia no hay un modelo entrenado para XYZ")));
    assert!(!needs_preparation(Some("No se pudo contactar a Modal")));
    assert!(!needs_preparation(None));
}

#[test]
fn preparation_slots_are_limited_and_unique() {
    assert_eq!(MAX_CONCURRENT_PREPARATIONS, 2);
    let mut slots = PreparationSlots::new();
    assert!(slots.try_reserve("GGAL"));
    assert!(!slots.try_reserve("GGAL"));
    assert!(slots.try_reserve("YPFD"));
    assert!(!slots.try_reserve("BMA"));
    slots.release("GGAL");
    assert!(slots.try_reserve("BMA"));
    slots.release("NOPE");
    assert!(!slots.try_reserve("TXAR"));
}

#[test]
fn reserving_then_releasing_frees_the_slot() {
    let mut slots = PreparationSlots::new();
    assert!(slots.try_reserve("GGAL"));
    slots.release("GGAL");
    assert!(slots.try_reserve("YPFD"));
    assert!(slots.try_reserve("GGAL"));
}

#[test]
fn price_messages_and_urls() {
    assert_eq!(
        price_unavailable_message("GGAL"),
        "Could not retrieve current price data for GGAL. Please try again later."
    );
    assert_eq!(service_url("https://x.test//", "historical-data/GGAL"), "https://x.test/historical-data/GGAL");
    assert_eq!(service_url("https://x.test", "model-ready-tickers"), "https://x.test/model-ready-tickers");
    assert_eq!(service_url("", "a"), "/a");
}

#[test]
fn unavailable_trends_say_why() {
    assert_eq!(unavailable_reason(&ModelReply::Prediction), None);
    assert_eq!(
        unavailable_reason(&ModelReply::ModelError(Some("sin datos".to_string()))),
        Some("sin datos".to_string())
    );
    assert_eq!(
        unavailable_reason(&ModelReply::ModelError(None)),
        Some("Modal devolvio una respuesta invalida".to_string())
    );
    assert_eq!(unavailable_reason(&ModelReply::InvalidBody), Some("Respuesta invalida de Modal".to_string()));
    assert_eq!(
        unavailable_reason(&ModelReply::Failed),
        Some("Modal no pudo predecir para este ticker".to_string())
    );
    assert_eq!(unavailable_reason(&ModelReply::Unreachable), Some("No se pudo contactar a Modal".to_string()));
}

#[test]
fn forecast_keys_name_horizons() {
    assert_eq!(forecast_horizon("h.5"), Some(5));
    assert_eq!(forecast_horizon("h.12"), Some(12));
    assert_eq!(forecast_horizon("h.x"), None);
    assert_eq!(forecast_horizon("5"), None);
    assert_eq!(forecast_horizon("h."), None);
}

#[test]
fn ticker_dots_only_separate_runs() {
    assert!(is_valid_ticker("A.B.C"));
    assert!(is_valid_ticker("BRK.B"));
    assert!(!is_valid_ticker(".GGAL"));
    assert!(!is_valid_ticker("GGAL."));
    assert!(!is_valid_ticker("A..B"));
    assert!(!is_valid_ticker("."));
}

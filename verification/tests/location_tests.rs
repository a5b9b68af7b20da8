use khushu::location::{
    auto_location_label, first_search_hit, portal_step, reverse_geocode_name, search_url,
    short_city_with_country, GeocodeResult, LocationError, PortalAction, PortalEvent, PortalStage,
};

#[test]
fn city_and_country_of_place_names() {
    assert_eq!(short_city_with_country("Algiers, Sidi M'Hamed, Algiers, Algeria"), "Algiers, Algeria");
    assert_eq!(short_city_with_country("  Paris ,  , France "), "Paris, France");
    assert_eq!(short_city_with_country("Makkah"), "Makkah");
    assert_eq!(short_city_with_country(" , ,"), " , ,");
    assert_eq!(short_city_with_country(""), "");
    assert_eq!(short_city_with_country("الجزائر, الجزائر"), "الجزائر, الجزائر");
}

#[test]
fn search_request_url() {
    assert_eq!(
        search_url("São Paulo", "pt"),
        "https://nominatim.openstreetmap.org/search?q=S%C3%A3o%20Paulo&format=json&limit=1&accept-language=pt"
    );
    assert_eq!(
        search_url("a-b_c.d~e", "en"),
        "https://nominatim.openstreetmap.org/search?q=a-b_c.d~e&format=json&limit=1&accept-language=en"
    );
}

#[test]
fn search_answers() {
    assert_eq!(first_search_hit(vec![]), Err(LocationError::CityNotFound));
    let a = GeocodeResult { lat: "1".into(), lon: "2".into(), display_name: "A".into() };
    let b = GeocodeResult { lat: "3".into(), lon: "4".into(), display_name: "B".into() };
    assert_eq!(first_search_hit(vec![a.clone(), b]), Ok(a));
    assert_eq!(reverse_geocode_name(String::new()), Err(LocationError::NoCityForCoordinates));
    assert_eq!(reverse_geocode_name("X".into()), Ok("X".to_string()));
}

#[test]
fn error_messages() {
    assert_eq!(LocationError::CityNotFound.message_key(), "City not found. Please check the spelling.");
    assert_eq!(
        LocationError::TimedOut.message_key(),
        "Location request timed out. Please check your system settings."
    );
    assert_eq!(LocationError::NetworkError.message_key(), "Network error. Please check your connection.");
    assert_eq!(LocationError::InvalidResponse.message_key(), "Invalid response from location service.");
    assert_eq!(LocationError::PortalUnavailable.message_key(), "Location service unavailable. Please check system settings.");
    assert_eq!(LocationError::AccessDenied.message_key(), "Location access denied or unavailable.");
    assert_eq!(LocationError::UpdatesUnavailable.message_key(), "Failed to receive location updates.");
    assert_eq!(LocationError::Disconnected.message_key(), "Location service disconnected unexpectedly.");
    assert_eq!(LocationError::NetworkWhileResolving.message_key(), "Network error while resolving city.");
    assert_eq!(LocationError::NoCityForCoordinates.message_key(), "Could not find city name for these coordinates.");
}

#[test]
fn portal_exchange() {
    assert_eq!(portal_step(PortalStage::Connect, PortalEvent::Succeeded), PortalAction::Proceed(PortalStage::CreateSession));
    assert_eq!(portal_step(PortalStage::Connect, PortalEvent::Failed), PortalAction::Fail(LocationError::PortalUnavailable));
    assert_eq!(portal_step(PortalStage::Subscribe, PortalEvent::Failed), PortalAction::Fail(LocationError::UpdatesUnavailable));
    assert_eq!(portal_step(PortalStage::Start, PortalEvent::Failed), PortalAction::Fail(LocationError::AccessDenied));
    assert_eq!(portal_step(PortalStage::AwaitFix, PortalEvent::Fix), PortalAction::CloseAndResolve);
    assert_eq!(portal_step(PortalStage::AwaitFix, PortalEvent::StreamEnded), PortalAction::CloseAndFail(LocationError::Disconnected));
    assert_eq!(portal_step(PortalStage::AwaitFix, PortalEvent::TimedOut), PortalAction::CloseAndFail(LocationError::TimedOut));
}

#[test]
fn automatic_location_label() {
    assert_eq!(auto_location_label(Ok("Oran, Oran, Algeria".into()), "x".into()), "Oran, Algeria");
    assert_eq!(auto_location_label(Err(LocationError::NetworkWhileResolving), "35.70°N, 0.63°W".into()), "35.70°N, 0.63°W");
}

#[test]
fn shortening_twice_changes_nothing() {
    for name in [
        "Algiers, Sidi M'Hamed, Algiers, Algeria",
        "  Paris ,  , France ",
        "Makkah",
        " , ,",
        "",
        "\u{a0}Tokyo\u{3000}, Japan",
    ] {
        let once = short_city_with_country(name);
        assert_eq!(short_city_with_country(&once), once);
    }
}

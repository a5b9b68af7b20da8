# khushu

The decision logic of Khushu, a desktop prayer-times companion, written in
Verus with its behaviour stated in `requires`/`ensures` contracts and proved.

- `src/` is the verified library:
  - `timer` — the once-a-second prayer timer as a state machine (pre-prayer
    alerts, prayer-time notifications and Adhan, Iqamah countdown, adkar
    reminders, daily mosque refresh, what the home page shows);
  - `config` — the settings model, its defaults, the Iqamah table, and the
    migration and obfuscation steps around loading and saving;
  - `i18n` — locale fallbacks, catalog directory candidates, system language
    detection and the translation lookup cascade (through gettext);
  - `location` — geocoding helpers, city labels, search URLs (through
    urlencoding) and the location-portal state machine;
  - `audio` — Adhan sound selection and the player state machine;
  - `display` — the hijri date line (through hijri_date), the home page line,
    notification texts and tray labels;
  - `settings`, `compass`, `autostart` — the settings page's choice lists and
    labels, the compass loop generations, and the autostart plan;
  - `text` — verified string helpers shared by the modules above.
- `tests/` runs the library on concrete values.
- `app/` is the GTK application around the library: windows, files, D-Bus
  portals, audio output, network requests and floating-point geometry.

# open_now

The verified core of a desktop shortcut manager (a launcher with global
hotkeys and a tray icon), written in Verus.

- `src/` is the library. Its functions are proved against their contracts,
  except five small `external_body` wrappers whose contracts are trusted:
  they call `str::to_lowercase`, `Path::join`, `Path::extension`,
  `uuid::Uuid::new_v4` and global-hotkey's `HotKey::new(..).id()`. The modules:
  - `shortcut`: the shortcut record, its defaults and random ids;
  - `store`: the shortcut list (lookup, add, update, delete, launch counts,
    the category list, search) and the laws that tie these together;
  - `ranking`: the stable ranking of search results (most launched first,
    then by lowercased name);
  - `table`: sorting the shortcut table by name, category, hotkey or launch
    count, either way round;
  - `hotkeys`: parsing "ctrl+alt+k"-style hotkeys, their system ids, the
    table of registered hotkeys and the plan for re-registering them;
  - `launch`: deciding how a target is opened on each platform;
  - `launcher`: the launcher popup's state and its key and mouse handling,
    and the edit dialog's tidying;
  - `paths`: the data directory, the shortcut file and the icon cache;
  - `tray`: the tray menu actions, the application icon's pixels and the
    BGRA-to-RGBA conversion of extracted icons;
  - `text`: substring search, lexicographic order and other text helpers.
- `app/` is the program around it: the egui windows, the JSON file, the
  system hotkey and tray registration, and process spawning.
- `tests/` runs the library on concrete values.

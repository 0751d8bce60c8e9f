# rustymail

The logic of a desktop mail client, verified with Verus: the search box
language, thread lists and their SQL, contacts (vCard and CSV import and
export, merging, autocomplete), CalDAV requests and replies, iCalendar
events, accounts and the OAuth redirect, subscriptions and unsubscribing,
mute, snooze and scheduled sends.

- `src/` is the verified library. Each public function states what it
  returns in its `ensures`; the proof functions named `law_*` state what
  holds across calls (recent searches, CSV export read back by the import,
  autocomplete and subscription scans recording each address once, star
  changes, one-click unsubscribe tried once, mutes, and every SQL
  placeholder bound).
- `tests/` runs the library on concrete values.
- `app/` holds the I/O around it: HTTP (CalDAV, Google Calendar, OAuth
  profile, one-click unsubscribe), SQLite (contacts, recent searches,
  subscriptions) and files (logs, downloads).

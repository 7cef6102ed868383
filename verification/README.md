# copy_manga_downloader

A command-line downloader for an online comic site, built around a library whose
logic is specified and proved with Verus.

- `src/` — the verified library:
  - `text`: trimming, stripping, decimal formatting (with the character-class
    queries of std behind two small trusted wrappers);
  - `numbers`: decimal parsing as `str::parse` does it, and the round trip with
    decimal formatting;
  - `json`: the JSON document model the site's replies are read through;
  - `crypto`: decryption of the site's encrypted catalogues (hex decoding and
    AES-128-CBC behind trusted wrappers);
  - `secrets`: the keys hidden in the site's pages (regular expressions behind a
    trusted wrapper);
  - `catalogue`: the walk over a decrypted catalogue, the page-link list and the
    lookups in search results and saved catalogues;
  - `site`: the site's addresses (a comic given by identifier or by page address) and search query;
  - `storage`: file names and download paths;
  - `updates`: which online chapters are new, and the steps of the update check;
  - `download`: chapter ranges, the chosen chapters, the chapter listing;
  - `flow`: the decisions of the retry loops, the menus and the image download;
  - `types`: the data the program passes around.
- `app/` — the program: console, HTTP, files, JSON and TOML reading, concurrency.
- `tests/` — tests of the library.

# chartsapi

A chart lookup service for the FAA digital terminal procedures publication
(d-TPP), with its logic verified by Verus.

- `src/` is the verified library: the metafile model (`faa_metafile`), the
  chart index built from a metafile and looked up by FAA or ICAO identifier
  (`chart_index`), the effective-date check and cycle naming (`cycle`), chart
  hosts and links (`host`), grouping codes (`grouping`), the answers to chart
  requests and chart searches (`queries`), the answer types (`response_dtos`)
  and the text helpers they use (`text`).
- `app/` is the HTTP service: it fetches and parses the XML files, keeps the
  index current once an hour, and serves `/v1/charts` and
  `/v1/charts/{apt_id}/{chart_search_term}`.
- `tests/` runs the library on concrete metafiles and requests.

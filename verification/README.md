# quizinart

The rules of Quizinart, a web application for practising quizzes, as a
library whose behaviour is stated in contracts and proved with Verus.

- `src/` — the verified library: choosing the questions of a session,
  reading and grading answers, the account flows (login, registration,
  verification and password mail, password reset and change), the locale
  of a request, cookies and the CSRF check, the static-asset map, the
  numbers and links of the pages.
- `tests/` — tests of the library on concrete values.
- `app/` — the web server around it (axum, PostgreSQL through sqlx, maud
  pages, mail through the Resend API).  It performs the storage and mail
  work that the library's flows ask for and renders what they decide.

#!/bin/sh
# Runs a build command with the services of translate.env and picsur.env configured, for
# example: extras/build.sh cargo build
#
# Each file holds lines of the form key=value; a missing file leaves its service out.
set -eu

configure() {
    file="$1"
    prefix="$2"
    [ -f "$file" ] || return 0
    while IFS= read -r line || [ -n "$line" ]; do
        case "$line" in
            '' | '#'*) continue ;;
            *=*) ;;
            *) continue ;;
        esac
        key=$(printf '%s' "${line%%=*}" | tr -d '[:space:]' | tr '[:lower:]' '[:upper:]')
        value=$(printf '%s' "${line#*=}" | sed 's/^[[:space:]]*//; s/[[:space:]]*$//')
        export "MF_${prefix}_${key}=${value}"
    done < "$file"
}

configure translate.env TRANSLATE
configure picsur.env PICSUR
exec "$@"
